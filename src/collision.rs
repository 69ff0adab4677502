use vstd::prelude::*;

use crate::actor::Player;
use crate::geometry::{
    edge_cross, find_projection, line_intersect, projection_spec, segments_cross, side,
    side_of_line_detection, sign, Point,
};

verus! {

/// Width of the contact shell around the collision circle, in lattice units.
pub const CONTACT_MARGIN: i64 = 32;

/// Length scale of the ray cast for the inside test; the ray runs along `(2, 1)`.
pub const RAY_REACH: i64 = 640000;

/// Largest collision radius accepted.
pub const RADIUS_LIMIT: i64 = 1048576;

/// The collision stage of a tick, which runs after movement and before timer decay.
#[derive(Clone, Copy, Debug, PartialEq, Eq, Structural)]
pub struct CollisionPlugin;

/// A polyline of level geometry, solid on the side given by `collision_side`.
pub struct Polygon {
    pub points: Vec<Point>,
    /// 1 or -1: the side of each edge, as `side_of_line_detection` reports it,
    /// from which the polyline collides.
    pub collision_side: i8,
}

impl Polygon {
    pub open spec fn wf(&self) -> bool {
        &&& forall|i: int| 0 <= i < self.points@.len() ==> (#[trigger] self.points@[i]).in_range()
        &&& (self.collision_side == 1 || self.collision_side == -1)
    }
}

/// The level: every polygon the actor collides with.
pub struct Level {
    pub polygons: Vec<Polygon>,
}

impl Level {
    pub open spec fn wf(&self) -> bool {
        forall|i: int| 0 <= i < self.polygons@.len() ==> (#[trigger] self.polygons@[i]).wf()
    }
}

/// What one edge contributes to a collision pass.
#[derive(Clone, Copy, Debug, PartialEq, Eq, Structural)]
pub struct EdgeContact {
    /// Direction from the edge's line towards the actor's centre, as long as
    /// the edge; zero when the centre lies on the line.
    pub normal: Point,
    /// Penalised squared distance from the centre to the edge, as `dist_num / den`.
    pub dist_num: i128,
    pub den: i128,
    /// The circle overlaps the edge.
    pub colliding: bool,
    /// The contact shell overlaps the edge.
    pub touching: bool,
    /// Touching, and the normal does not point downward.
    pub supports: bool,
    /// -1 or 1 where the edge counts as a wall, the sign of the normal's `x`; else 0.
    pub wall_side: i8,
    /// The edge counts as ground.
    pub ground: bool,
}

/// Result of a collision pass over the whole level.
pub struct Resolution {
    /// The position after the tunnelling guard: the tentative one, or the previous one.
    pub position: Point,
    /// The edges whose contact shell the actor touches, in level order.
    pub contacts: Vec<EdgeContact>,
    pub grounded: bool,
    pub wall_side: i8,
}

/// Normal from the edge `s -> e` towards `p`, scaled to the edge's length.
pub open spec fn normal_x(s: Point, e: Point, p: Point) -> int {
    -(e.y - s.y) * sign(edge_cross(s, e, p))
}

pub open spec fn normal_y(s: Point, e: Point, p: Point) -> int {
    (e.x - s.x) * sign(edge_cross(s, e, p))
}

/// The direction does not point downward by more than a hundredth of its length.
pub open spec fn supports_dir(nx: int, ny: int) -> bool {
    ny >= 0 || 10000 * (ny * ny) <= nx * nx + ny * ny
}

/// At least four fifths of the direction's length is horizontal.
pub open spec fn wall_dir(nx: int, ny: int) -> bool {
    (nx != 0 || ny != 0) && 25 * (nx * nx) >= 16 * (nx * nx + ny * ny)
}

/// More than a hundredth of the direction's length points upward.
pub open spec fn ground_dir(nx: int, ny: int) -> bool {
    ny > 0 && 10000 * (ny * ny) > nx * nx + ny * ny
}

/// The edge takes part in the pass: it has length, and the previous position
/// lies on its solid side.
pub open spec fn edge_active(s: Point, e: Point, prev: Point, collision_side: int) -> bool {
    s != e && side(s, e, prev) == collision_side
}

pub open spec fn contact_spec(s: Point, e: Point, p: Point, radius: int) -> EdgeContact {
    let pr = projection_spec(s, e, p, radius);
    let nx = normal_x(s, e, p);
    let ny = normal_y(s, e, p);
    let touching = pr.dist_num <= (radius + CONTACT_MARGIN) * (radius + CONTACT_MARGIN) * pr.den;
    let supports = touching && supports_dir(nx, ny);
    EdgeContact {
        normal: Point { x: nx as i64, y: ny as i64 },
        dist_num: pr.dist_num,
        den: pr.den,
        colliding: pr.dist_num <= radius * radius * pr.den,
        touching,
        supports,
        wall_side: if supports && wall_dir(nx, ny) {
            sign(nx) as i8
        } else {
            0
        },
        ground: supports && ground_dir(nx, ny),
    }
}

} // verus!

verus! {

/// Classifies one edge against the actor at `position`; `None` where the edge
/// has no length or `prev_position` lies off its solid side.
pub fn classify_edge(
    start: Point,
    end: Point,
    position: Point,
    prev_position: Point,
    radius: i64,
    collision_side: i8,
) -> (r: Option<EdgeContact>)
    requires
        start.in_range(),
        end.in_range(),
        position.in_range(),
        prev_position.in_range(),
        0 < radius <= RADIUS_LIMIT,
    ensures
        r is Some <==> edge_active(start, end, prev_position, collision_side as int),
        r matches Some(c) ==> c == contact_spec(start, end, position, radius as int),
{
    let prev_side = side_of_line_detection(start, end, prev_position);
    if prev_side != collision_side {
        return None;
    }
    let pr = match find_projection(start, end, position, radius) {
        Some(pr) => pr,
        None => {
            return None;
        },
    };
    let lx = end.x - start.x;
    let ly = end.y - start.y;
    let (nx, ny): (i64, i64) = if pr.side_cross > 0 {
        (-ly, lx)
    } else if pr.side_cross < 0 {
        (ly, -lx)
    } else {
        (0, 0)
    };
    proof {
        assert(nx == normal_x(start, end, position) && ny == normal_y(start, end, position))
            by (nonlinear_arith)
            requires
                pr.side_cross == edge_cross(start, end, position),
                pr.side_cross > 0 ==> nx == -ly && ny == lx,
                pr.side_cross < 0 ==> nx == ly && ny == -lx,
                pr.side_cross == 0 ==> nx == 0 && ny == 0,
                lx == end.x - start.x,
                ly == end.y - start.y,
        ;
    }
    let nx = nx as i128;
    let ny = ny as i128;
    let r = radius as i128;
    let shell = r + CONTACT_MARGIN as i128;
    let ghost l: int = 536870912int;
    let ghost big: int = 1152921504606846976int;
    proof {
        crate::geometry::lemma_mul_bound(nx as int, nx as int, l, l);
        crate::geometry::lemma_mul_bound(ny as int, ny as int, l, l);
        crate::geometry::lemma_mul_bound(r as int, r as int, 2097152, 2097152);
        crate::geometry::lemma_mul_bound(shell as int, shell as int, 2097152, 2097152);
        crate::geometry::lemma_mul_bound(r * r, pr.den as int, 4398046511104, big);
        crate::geometry::lemma_mul_bound(shell * shell, pr.den as int, 4398046511104, big);
        assert(r * r * pr.den == (r * r) * pr.den);
    }
    let colliding = pr.dist_num <= r * r * pr.den;
    let touching = pr.dist_num <= shell * shell * pr.den;
    let len2 = nx * nx + ny * ny;
    let supports = touching && (ny >= 0 || 10000 * (ny * ny) <= len2);
    let is_wall = (nx != 0 || ny != 0) && 25 * (nx * nx) >= 16 * len2;
    let wall_side: i8 = if supports && is_wall {
        if nx > 0 {
            1
        } else if nx < 0 {
            -1
        } else {
            0
        }
    } else {
        0
    };
    let ground = supports && ny > 0 && 10000 * (ny * ny) > len2;
    Some(
        EdgeContact {
            normal: Point { x: nx as i64, y: ny as i64 },
            dist_num: pr.dist_num,
            den: pr.den,
            colliding,
            touching,
            supports,
            wall_side,
            ground,
        },
    )
}

} // verus!

verus! {

/// Far end of the ray cast from `p` for the inside test.
pub open spec fn ray_end(p: Point) -> Point {
    Point { x: (p.x + 2 * RAY_REACH) as i64, y: (p.y + RAY_REACH) as i64 }
}

/// Number of the first `n - 1` edges of `pts` that the ray from `pos` crosses.
pub open spec fn crossings(pts: Seq<Point>, pos: Point, n: int) -> nat
    decreases n,
{
    if n <= 1 {
        0
    } else {
        crossings(pts, pos, n - 1) + if segments_cross(pts[n - 2], pts[n - 1], pos, ray_end(pos)) {
            1nat
        } else {
            0nat
        }
    }
}

/// Some active edge among the first `n - 1` edges of `pts` overlaps the circle.
pub open spec fn collides(
    pts: Seq<Point>,
    collision_side: int,
    pos: Point,
    prev: Point,
    radius: int,
    n: int,
) -> bool
    decreases n,
{
    if n <= 1 {
        false
    } else {
        collides(pts, collision_side, pos, prev, radius, n - 1) || (edge_active(
            pts[n - 2],
            pts[n - 1],
            prev,
            collision_side,
        ) && contact_spec(pts[n - 2], pts[n - 1], pos, radius).colliding)
    }
}

/// The tunnelling guard fires for `poly`: the circle overlaps it and the ray
/// from the centre crosses it an odd number of times.
pub open spec fn polygon_reverts(poly: Polygon, pos: Point, prev: Point, radius: int) -> bool {
    let n = poly.points@.len() as int;
    collides(poly.points@, poly.collision_side as int, pos, prev, radius, n) && crossings(
        poly.points@,
        pos,
        n,
    ) % 2 == 1
}

/// The position after the tunnelling guard of the first `n` polygons.
pub open spec fn position_after(
    polys: Seq<Polygon>,
    n: int,
    pos: Point,
    prev: Point,
    radius: int,
) -> Point
    decreases n,
{
    if n <= 0 {
        pos
    } else {
        let p = position_after(polys, n - 1, pos, prev, radius);
        if polygon_reverts(polys[n - 1], p, prev, radius) {
            prev
        } else {
            p
        }
    }
}

/// The contacts of the first `n - 1` edges of `pts`: the active edges whose
/// contact shell the circle touches, in order.
pub open spec fn edge_contacts(
    pts: Seq<Point>,
    collision_side: int,
    pos: Point,
    prev: Point,
    radius: int,
    n: int,
) -> Seq<EdgeContact>
    decreases n,
{
    if n <= 1 {
        Seq::empty()
    } else {
        let earlier = edge_contacts(pts, collision_side, pos, prev, radius, n - 1);
        let c = contact_spec(pts[n - 2], pts[n - 1], pos, radius);
        if edge_active(pts[n - 2], pts[n - 1], prev, collision_side) && c.touching {
            earlier.push(c)
        } else {
            earlier
        }
    }
}

/// The contacts of the first `n` polygons, each seen from the position that
/// the tunnelling guard of the polygons before it left.
pub open spec fn level_contacts(
    polys: Seq<Polygon>,
    n: int,
    pos: Point,
    prev: Point,
    radius: int,
) -> Seq<EdgeContact>
    decreases n,
{
    if n <= 0 {
        Seq::empty()
    } else {
        let poly = polys[n - 1];
        level_contacts(polys, n - 1, pos, prev, radius) + edge_contacts(
            poly.points@,
            poly.collision_side as int,
            position_after(polys, n - 1, pos, prev, radius),
            prev,
            radius,
            poly.points@.len() as int,
        )
    }
}

/// Some contact counts as ground.
pub open spec fn any_ground(cs: Seq<EdgeContact>) -> bool
    decreases cs.len(),
{
    if cs.len() == 0 {
        false
    } else {
        cs.last().ground || any_ground(cs.drop_last())
    }
}

/// The wall side of the last contact that counts as a wall; 0 if none does.
pub open spec fn last_wall_side(cs: Seq<EdgeContact>) -> int
    decreases cs.len(),
{
    if cs.len() == 0 {
        0
    } else if cs.last().wall_side != 0 {
        cs.last().wall_side as int
    } else {
        last_wall_side(cs.drop_last())
    }
}

/// No active edge of the level comes within the contact shell of the actor.
pub open spec fn separated(polys: Seq<Polygon>, pos: Point, prev: Point, radius: int) -> bool {
    forall|k: int, i: int|
        0 <= k < polys.len() && 1 <= i < polys[k].points@.len() && edge_active(
            polys[k].points@[i - 1],
            polys[k].points@[i],
            prev,
            polys[k].collision_side as int,
        ) ==> !(#[trigger] contact_spec(
            polys[k].points@[i - 1],
            polys[k].points@[i],
            pos,
            radius,
        )).touching
}

/// Overlapping an edge implies touching it.
pub proof fn lemma_colliding_touches(s: Point, e: Point, p: Point, radius: int)
    requires
        s.in_range(),
        e.in_range(),
        0 < radius,
        s != e,
    ensures
        contact_spec(s, e, p, radius).colliding ==> contact_spec(s, e, p, radius).touching,
{
    let den = projection_spec(s, e, p, radius).den as int;
    crate::geometry::lemma_projection_distance(s, e, p, radius);
    let dx = e.x - s.x;
    let dy = e.y - s.y;
    crate::geometry::lemma_mul_bound(dx, dx, 536870912, 536870912);
    crate::geometry::lemma_mul_bound(dy, dy, 536870912, 536870912);
    assert(dx * dx >= 0 && dy * dy >= 0) by (nonlinear_arith);
    assert(radius * radius * den <= (radius + CONTACT_MARGIN) * (radius + CONTACT_MARGIN) * den)
        by (nonlinear_arith)
        requires
            0 < radius,
            den >= 0,
            CONTACT_MARGIN > 0,
    ;
}

} // verus!

verus! {

proof fn lemma_push_contact(cs: Seq<EdgeContact>, c: EdgeContact)
    ensures
        any_ground(cs.push(c)) == (any_ground(cs) || c.ground),
        last_wall_side(cs.push(c)) == if c.wall_side != 0 {
            c.wall_side as int
        } else {
            last_wall_side(cs)
        },
{
    assert(cs.push(c).drop_last() =~= cs);
}

/// One collision pass of the actor at `position` (previous position
/// `prev_position`) against the whole level: applies the tunnelling guard,
/// gathers the touched edges, and records ground and wall contact in `player`.
pub fn s_collision(
    level: &Level,
    position: Point,
    prev_position: Point,
    radius: i64,
    player: &mut Player,
) -> (r: Resolution)
    requires
        level.wf(),
        position.in_range(),
        prev_position.in_range(),
        0 < radius <= RADIUS_LIMIT,
    ensures
        r.position == position_after(
            level.polygons@,
            level.polygons@.len() as int,
            position,
            prev_position,
            radius as int,
        ),
        r.contacts@ == level_contacts(
            level.polygons@,
            level.polygons@.len() as int,
            position,
            prev_position,
            radius as int,
        ),
        forall|k: int| 0 <= k < r.contacts@.len() ==> (#[trigger] r.contacts@[k]).touching,
        r.grounded == any_ground(r.contacts@),
        r.wall_side == last_wall_side(r.contacts@),
        *final(player) == old(player).after_contacts(r.grounded, r.wall_side as int),
        old(player).wf() ==> final(player).wf(),
        separated(level.polygons@, position, prev_position, radius as int) ==> {
            &&& r.position == position
            &&& r.contacts@.len() == 0
            &&& *final(player) == *old(player)
        },
{
    let ghost polys = level.polygons@;
    let ghost sep = separated(polys, position, prev_position, radius as int);
    let mut pos = position;
    let mut contacts: Vec<EdgeContact> = Vec::new();
    let mut grounded = false;
    let mut wall_side: i8 = 0;
    let mut k: usize = 0;
    while k < level.polygons.len()
        invariant
            level.wf(),
            polys == level.polygons@,
            position.in_range(),
            prev_position.in_range(),
            0 < radius <= RADIUS_LIMIT,
            0 <= k <= polys.len(),
            pos == position || pos == prev_position,
            pos == position_after(polys, k as int, position, prev_position, radius as int),
            contacts@ == level_contacts(polys, k as int, position, prev_position, radius as int),
            forall|j: int| 0 <= j < contacts@.len() ==> (#[trigger] contacts@[j]).touching,
            grounded == any_ground(contacts@),
            wall_side == last_wall_side(contacts@),
            -1 <= wall_side <= 1,
            sep == separated(polys, position, prev_position, radius as int),
            sep ==> pos == position && contacts@.len() == 0,
        decreases polys.len() - k,
    {
        let poly = &level.polygons[k];
        let ghost pts = poly.points@;
        let ghost base = contacts@;
        assert(poly.wf());
        let ray = Point { x: pos.x + 2 * RAY_REACH, y: pos.y + RAY_REACH };
        let mut count: usize = 0;
        let mut colliding = false;
        let mut i: usize = 1;
        while i < poly.points.len()
            invariant
                level.wf(),
                polys == level.polygons@,
                poly == polys[k as int],
                pts == poly.points@,
                poly.wf(),
                position.in_range(),
                prev_position.in_range(),
                pos.in_range(),
                pos == position || pos == prev_position,
                ray == ray_end(pos),
                0 < radius <= RADIUS_LIMIT,
                0 <= k < polys.len(),
                1 <= i,
                i <= pts.len() || i == 1,
                count <= i,
                count == crossings(pts, pos, i as int),
                contacts@ == base + edge_contacts(
                    pts,
                    poly.collision_side as int,
                    pos,
                    prev_position,
                    radius as int,
                    i as int,
                ),
                colliding == collides(
                    pts,
                    poly.collision_side as int,
                    pos,
                    prev_position,
                    radius as int,
                    i as int,
                ),
                forall|j: int| 0 <= j < contacts@.len() ==> (#[trigger] contacts@[j]).touching,
                grounded == any_ground(contacts@),
                wall_side == last_wall_side(contacts@),
                -1 <= wall_side <= 1,
                sep == separated(polys, position, prev_position, radius as int),
                sep ==> pos == position && contacts@.len() == 0 && !colliding,
            decreases pts.len() - i,
        {
            let start = poly.points[i - 1];
            let end = poly.points[i];
            assert(start.in_range() && end.in_range()) by {
                assert(pts[i - 1].in_range());
                assert(pts[i as int].in_range());
            }
            if line_intersect(start, end, pos, ray).is_some() {
                count = count + 1;
            }
            match classify_edge(start, end, pos, prev_position, radius, poly.collision_side) {
                Some(c) => {
                    proof {
                        lemma_colliding_touches(start, end, pos, radius as int);
                        if sep {
                            assert(!contact_spec(pts[i - 1], pts[i as int], pos, radius as int).touching);
                        }
                    }
                    if c.colliding {
                        colliding = true;
                    }
                    if c.touching {
                        proof {
                            lemma_push_contact(contacts@, c);
                        }
                        contacts.push(c);
                        proof {
                            assert(contacts@ =~= base + edge_contacts(
                                pts,
                                poly.collision_side as int,
                                pos,
                                prev_position,
                                radius as int,
                                i + 1,
                            ));
                        }
                        grounded = grounded || c.ground;
                        if c.wall_side != 0 {
                            wall_side = c.wall_side;
                        }
                    }
                },
                None => {},
            }
            i = i + 1;
        }
        proof {
            if pts.len() > 1 {
                assert(i == pts.len());
            }
            assert(contacts@ =~= level_contacts(polys, k + 1, position, prev_position, radius as int));
            assert(polygon_reverts(polys[k as int], pos, prev_position, radius as int) == (colliding
                && count % 2 == 1));
        }
        let ghost before = pos;
        if colliding && count % 2 == 1 {
            pos = prev_position;
        }
        proof {
            assert(position_after(polys, k + 1, position, prev_position, radius as int) == if polygon_reverts(
                polys[k as int],
                before,
                prev_position,
                radius as int,
            ) {
                prev_position
            } else {
                before
            });
        }
        k = k + 1;
    }
    player.register_contacts(grounded, wall_side);
    Resolution { position: pos, contacts, grounded, wall_side }
}

} // verus!

verus! {

pub open spec fn abs(v: int) -> int {
    if v < 0 {
        -v
    } else {
        v
    }
}

/// The component of largest magnitude among `vs`, the earliest on ties; 0 for none.
pub open spec fn largest(vs: Seq<int>) -> int
    decreases vs.len(),
{
    if vs.len() == 0 {
        0
    } else {
        let m = largest(vs.drop_last());
        if abs(vs.last()) > abs(m) {
            vs.last()
        } else {
            m
        }
    }
}

pub open spec fn xs_of(ds: Seq<Point>) -> Seq<int> {
    Seq::new(ds.len(), |i: int| ds[i].x as int)
}

pub open spec fn ys_of(ds: Seq<Point>) -> Seq<int> {
    Seq::new(ds.len(), |i: int| ds[i].y as int)
}

proof fn lemma_largest_bounds(vs: Seq<int>)
    ensures
        forall|i: int| 0 <= i < vs.len() ==> abs(#[trigger] vs[i]) <= abs(largest(vs)),
        largest(vs) == 0 || exists|i: int| 0 <= i < vs.len() && vs[i] == largest(vs),
    decreases vs.len(),
{
    if vs.len() > 0 {
        let init = vs.drop_last();
        lemma_largest_bounds(init);
        assert forall|i: int| 0 <= i < vs.len() implies abs(#[trigger] vs[i]) <= abs(largest(vs)) by {
            if i < vs.len() - 1 {
                assert(vs[i] == init[i]);
            }
        }
        if largest(vs) != 0 && largest(vs) != vs.last() {
            let j = choose|j: int| 0 <= j < init.len() && init[j] == largest(init);
            assert(vs[j] == largest(vs));
        }
    }
}

/// The push-out correction of a collision pass: per axis, the single
/// component of largest magnitude among the overlap deltas, not their sum.
pub fn push_out_correction(deltas: &Vec<Point>) -> (r: Point)
    requires
        forall|i: int| 0 <= i < deltas@.len() ==> (#[trigger] deltas@[i]).in_range(),
    ensures
        r.x == largest(xs_of(deltas@)),
        r.y == largest(ys_of(deltas@)),
        forall|i: int|
            0 <= i < deltas@.len() ==> abs((#[trigger] deltas@[i]).x as int) <= abs(r.x as int)
                && abs(deltas@[i].y as int) <= abs(r.y as int),
{
    let mut best = Point { x: 0, y: 0 };
    let mut i: usize = 0;
    while i < deltas.len()
        invariant
            0 <= i <= deltas@.len(),
            forall|j: int| 0 <= j < deltas@.len() ==> (#[trigger] deltas@[j]).in_range(),
            best.x == largest(xs_of(deltas@.take(i as int))),
            best.y == largest(ys_of(deltas@.take(i as int))),
            best.in_range(),
        decreases deltas@.len() - i,
    {
        let d = deltas[i];
        assert(xs_of(deltas@.take(i + 1)).drop_last() =~= xs_of(deltas@.take(i as int)));
        assert(ys_of(deltas@.take(i + 1)).drop_last() =~= ys_of(deltas@.take(i as int)));
        assert(d.in_range());
        let mag_dx = if d.x < 0 { -d.x } else { d.x };
        let mag_bx = if best.x < 0 { -best.x } else { best.x };
        if mag_dx > mag_bx {
            best.x = d.x;
        }
        let mag_dy = if d.y < 0 { -d.y } else { d.y };
        let mag_by = if best.y < 0 { -best.y } else { best.y };
        if mag_dy > mag_by {
            best.y = d.y;
        }
        i = i + 1;
    }
    proof {
        assert(deltas@.take(deltas@.len() as int) =~= deltas@);
        lemma_largest_bounds(xs_of(deltas@));
        lemma_largest_bounds(ys_of(deltas@));
        assert forall|i: int| 0 <= i < deltas@.len() implies abs((#[trigger] deltas@[i]).x as int)
            <= abs(best.x as int) && abs(deltas@[i].y as int) <= abs(best.y as int) by {
            assert(xs_of(deltas@)[i] == deltas@[i].x);
            assert(ys_of(deltas@)[i] == deltas@[i].y);
        }
    }
    best
}

} // verus!
