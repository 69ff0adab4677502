pub mod actor;
pub mod collision;
pub mod geometry;
