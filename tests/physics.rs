use slope_runner::actor::{Jump, Player, MAX_GROUNDED_TIMER, MAX_JUMP_TIMER, MAX_WALLED_TIMER};
use slope_runner::collision::{classify_edge, push_out_correction, s_collision, Level, Polygon};
use slope_runner::geometry::{
    cross_product, find_projection, line_intersect, side_of_line_detection, Placement, Point,
};

fn pt(x: i64, y: i64) -> Point {
    Point { x, y }
}

const RADIUS: i64 = 768;

fn ground_level() -> Level {
    Level {
        polygons: vec![Polygon { points: vec![pt(-64000, 0), pt(64000, 0)], collision_side: 1 }],
    }
}

#[test]
fn cross_product_value() {
    assert_eq!(cross_product(pt(3, 4), pt(5, 7)), 1);
    assert_eq!(cross_product(pt(5, 7), pt(3, 4)), -1);
}

#[test]
fn side_of_line_flips_with_orientation() {
    let s = pt(0, 0);
    let e = pt(10, 0);
    assert_eq!(side_of_line_detection(s, e, pt(3, 5)), 1);
    assert_eq!(side_of_line_detection(e, s, pt(3, 5)), -1);
    assert_eq!(side_of_line_detection(s, e, pt(3, -5)), -1);
    assert_eq!(side_of_line_detection(s, e, pt(-7, 0)), 0);
    assert_eq!(side_of_line_detection(e, s, pt(20, 0)), 0);
}

#[test]
fn line_intersect_crossing() {
    let i = line_intersect(pt(0, 0), pt(10, 0), pt(5, -5), pt(5, 5)).unwrap();
    assert_eq!((i.t_num, i.u_num, i.den), (50, 50, 100));
    let j = line_intersect(pt(0, 0), pt(10, 0), pt(5, 5), pt(5, -5)).unwrap();
    assert_eq!((j.t_num, j.u_num, j.den), (50, 50, 100));
}

#[test]
fn line_intersect_touching_end_point() {
    let i = line_intersect(pt(0, 0), pt(10, 0), pt(10, -5), pt(10, 5)).unwrap();
    assert_eq!(i.t_num, i.den);
}

#[test]
fn line_intersect_parallel_is_none() {
    assert!(line_intersect(pt(0, 0), pt(10, 0), pt(0, 5), pt(10, 5)).is_none());
    assert!(line_intersect(pt(0, 0), pt(10, 0), pt(2, 0), pt(8, 0)).is_none());
}

#[test]
fn line_intersect_outside_parameters_is_none() {
    assert!(line_intersect(pt(0, 0), pt(10, 0), pt(15, -5), pt(15, 5)).is_none());
    assert!(line_intersect(pt(0, 0), pt(10, 0), pt(5, 1), pt(5, 5)).is_none());
}

#[test]
fn projection_within_segment() {
    let p = find_projection(pt(0, 0), pt(10, 0), pt(5, 3), 2).unwrap();
    assert_eq!(p.placement, Placement::Within);
    assert_eq!(p.dist_num, 900);
    assert_eq!(p.den, 100);
    assert_eq!((p.foot_x, p.foot_y), (500, 0));
    assert_eq!(p.side_cross, 30);
}

#[test]
fn projection_before_start_is_penalised() {
    let p = find_projection(pt(0, 0), pt(10, 0), pt(-3, 4), 2).unwrap();
    assert_eq!(p.placement, Placement::BeforeStart);
    // (3^2 + 4^2 + 2 * 2^2) * 100
    assert_eq!(p.dist_num, 3300);
    assert_eq!((p.foot_x, p.foot_y), (-300, 0));
}

#[test]
fn projection_past_end_is_penalised() {
    let p = find_projection(pt(0, 0), pt(10, 0), pt(13, 4), 2).unwrap();
    assert_eq!(p.placement, Placement::PastEnd);
    assert_eq!(p.dist_num, 3300);
    assert_eq!((p.foot_x, p.foot_y), (1300, 0));
}

#[test]
fn projection_of_degenerate_edge_is_none() {
    assert!(find_projection(pt(4, 4), pt(4, 4), pt(0, 0), 2).is_none());
}

#[test]
fn classify_ground_edge() {
    let c = classify_edge(pt(-64000, 0), pt(64000, 0), pt(0, 768), pt(0, 800), RADIUS, 1).unwrap();
    assert!(c.colliding && c.touching && c.supports && c.ground);
    assert_eq!(c.wall_side, 0);
    assert_eq!(c.normal, pt(0, 128000));
}

#[test]
fn classify_wall_edge() {
    let c = classify_edge(pt(768, -64000), pt(768, 64000), pt(0, 0), pt(0, 0), RADIUS, 1).unwrap();
    assert!(c.colliding && c.touching && c.supports);
    assert!(!c.ground);
    assert_eq!(c.wall_side, -1);
}

#[test]
fn classify_ceiling_edge_does_not_support() {
    let c = classify_edge(pt(64000, 700), pt(-64000, 700), pt(0, 0), pt(0, 0), RADIUS, 1).unwrap();
    assert!(c.colliding && c.touching);
    assert!(!c.supports && !c.ground);
    assert_eq!(c.wall_side, 0);
}

#[test]
fn classify_skips_edge_seen_from_open_side() {
    assert!(classify_edge(pt(-64000, 0), pt(64000, 0), pt(0, 700), pt(0, -800), RADIUS, 1).is_none());
    assert!(classify_edge(pt(-64000, 0), pt(64000, 0), pt(0, 700), pt(5, 0), RADIUS, 1).is_none());
}

#[test]
fn contact_shell_touches_before_collision() {
    let c = classify_edge(pt(-64000, 0), pt(64000, 0), pt(0, 790), pt(0, 790), RADIUS, 1).unwrap();
    assert!(!c.colliding);
    assert!(c.touching && c.ground);
}

#[test]
fn separated_actor_is_left_alone() {
    let level = ground_level();
    let mut player = Player::new();
    player.walled_timer = 4;
    let before = player;
    let r = s_collision(&level, pt(0, 64000), pt(0, 64032), RADIUS, &mut player);
    assert_eq!(r.position, pt(0, 64000));
    assert!(r.contacts.is_empty());
    assert!(!r.grounded);
    assert_eq!(r.wall_side, 0);
    assert_eq!(player, before);
}

#[test]
fn empty_level_gives_no_contact() {
    let level = Level { polygons: vec![] };
    let mut player = Player::new();
    let r = s_collision(&level, pt(5, 5), pt(0, 0), RADIUS, &mut player);
    assert_eq!(r.position, pt(5, 5));
    assert!(r.contacts.is_empty());
}

#[test]
fn tangent_ground_contact_grounds_the_actor() {
    let level = ground_level();
    let mut player = Player::new();
    player.walled_timer = -7;
    player.has_wall_jumped = true;
    let r = s_collision(&level, pt(0, RADIUS), pt(0, RADIUS), RADIUS, &mut player);
    assert_eq!(r.position, pt(0, RADIUS));
    assert_eq!(r.contacts.len(), 1);
    assert!(r.contacts[0].colliding);
    assert!(r.grounded);
    assert_eq!(player.grounded_timer, MAX_GROUNDED_TIMER);
    assert_eq!(player.walled_timer, 0);
    assert!(!player.has_wall_jumped);
}

#[test]
fn ground_wins_over_wall_in_one_pass() {
    let level = Level {
        polygons: vec![
            Polygon { points: vec![pt(768, -64000), pt(768, 64000)], collision_side: 1 },
            Polygon { points: vec![pt(-64000, -768), pt(64000, -768)], collision_side: 1 },
        ],
    };
    let mut player = Player::new();
    let r = s_collision(&level, pt(0, 0), pt(0, 0), RADIUS, &mut player);
    assert_eq!(r.contacts.len(), 2);
    assert!(r.grounded);
    assert_eq!(r.wall_side, -1);
    assert_eq!(player.grounded_timer, MAX_GROUNDED_TIMER);
    assert_eq!(player.walled_timer, 0);
}

#[test]
fn wall_contact_sets_signed_wall_timer() {
    let level = Level {
        polygons: vec![Polygon { points: vec![pt(768, -64000), pt(768, 64000)], collision_side: 1 }],
    };
    let mut player = Player::new();
    player.has_wall_jumped = true;
    let r = s_collision(&level, pt(0, 0), pt(0, 0), RADIUS, &mut player);
    assert!(!r.grounded);
    assert_eq!(r.wall_side, -1);
    assert_eq!(player.walled_timer, -MAX_WALLED_TIMER);
    assert!(!player.has_wall_jumped);
}

#[test]
fn tunnelling_through_a_closed_polygon_reverts() {
    let square = Polygon {
        points: vec![pt(-640, -640), pt(640, -640), pt(640, 640), pt(-640, 640), pt(-640, -640)],
        collision_side: -1,
    };
    let level = Level { polygons: vec![square] };
    let mut player = Player::new();
    let r = s_collision(&level, pt(0, 600), pt(0, 1000), RADIUS, &mut player);
    assert_eq!(r.position, pt(0, 1000));
}

#[test]
fn decay_moves_timers_towards_zero() {
    let mut p = Player { jump_timer: 3, grounded_timer: 0, walled_timer: -2, has_wall_jumped: true };
    p.decay_timers();
    assert_eq!(p, Player { jump_timer: 2, grounded_timer: 0, walled_timer: -1, has_wall_jumped: true });
    p.decay_timers();
    p.decay_timers();
    assert_eq!(p, Player { jump_timer: 0, grounded_timer: 0, walled_timer: 0, has_wall_jumped: true });
    let mut q = Player { jump_timer: 0, grounded_timer: 5, walled_timer: 4, has_wall_jumped: false };
    q.decay_timers();
    assert_eq!((q.grounded_timer, q.walled_timer), (4, 3));
}

#[test]
fn ground_jump_clears_buffer_and_ground_window() {
    let mut p = Player::new();
    p.grounded_timer = MAX_GROUNDED_TIMER;
    p.request_jump();
    assert_eq!(p.jump_timer, MAX_JUMP_TIMER);
    assert_eq!(p.arbitrate_jump(), Jump::Ground);
    assert_eq!(p.jump_timer, 0);
    assert_eq!(p.grounded_timer, 0);
}

#[test]
fn wall_jump_leaves_away_from_wall() {
    let mut p = Player { jump_timer: MAX_JUMP_TIMER, grounded_timer: 0, walled_timer: -MAX_WALLED_TIMER, has_wall_jumped: false };
    assert_eq!(p.arbitrate_jump(), Jump::Wall { direction: -1 });
    assert!(p.has_wall_jumped);
    assert_eq!((p.jump_timer, p.walled_timer), (0, 0));
    let mut q = Player { jump_timer: 1, grounded_timer: 0, walled_timer: 3, has_wall_jumped: false };
    assert_eq!(q.arbitrate_jump(), Jump::Wall { direction: 1 });
}

#[test]
fn unmatched_jump_stays_pending() {
    let mut p = Player { jump_timer: 4, grounded_timer: 0, walled_timer: 0, has_wall_jumped: false };
    assert_eq!(p.arbitrate_jump(), Jump::Stay);
    assert_eq!(p.jump_timer, 4);
    let mut q = Player::new();
    q.grounded_timer = 3;
    assert_eq!(q.arbitrate_jump(), Jump::Stay);
    assert_eq!(q.grounded_timer, 3);
}

#[test]
fn register_contacts_without_contact_changes_nothing() {
    let mut p = Player { jump_timer: 2, grounded_timer: 3, walled_timer: 4, has_wall_jumped: true };
    p.register_contacts(false, 0);
    assert_eq!(p, Player { jump_timer: 2, grounded_timer: 3, walled_timer: 4, has_wall_jumped: true });
    p.register_contacts(false, 1);
    assert_eq!(p.walled_timer, MAX_WALLED_TIMER);
    assert!(!p.has_wall_jumped);
}

#[test]
fn push_out_takes_largest_component_per_axis() {
    let deltas = vec![pt(3, -1), pt(-5, 2), pt(4, -7), pt(5, 7)];
    assert_eq!(push_out_correction(&deltas), pt(-5, -7));
    assert_eq!(push_out_correction(&vec![]), pt(0, 0));
    assert_eq!(push_out_correction(&vec![pt(0, 9)]), pt(0, 9));
}
