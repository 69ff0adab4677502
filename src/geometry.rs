use vstd::prelude::*;

verus! {

/// Largest magnitude of a level or actor coordinate, in lattice units.
pub const COORD_LIMIT: i64 = 268435456;

/// Largest magnitude of an end point of a ray or segment handed to `line_intersect`.
pub const REACH_LIMIT: i64 = 536870912;

/// Bound on a cross product of two differences of reachable points.
pub const CROSS_LIMIT: i128 = 2305843009213693952;

/// A point (or a direction) on the integer lattice.
#[derive(Clone, Copy, Debug, PartialEq, Eq, Structural)]
pub struct Point {
    pub x: i64,
    pub y: i64,
}

impl Point {
    pub open spec fn within(self, lim: int) -> bool {
        -lim <= self.x <= lim && -lim <= self.y <= lim
    }

    pub open spec fn in_range(self) -> bool {
        self.within(COORD_LIMIT as int)
    }
}

/// Sign of an integer: -1, 0 or 1.
pub open spec fn sign(v: int) -> int {
    if v > 0 {
        1
    } else if v < 0 {
        -1
    } else {
        0
    }
}

/// Two-dimensional cross product over the integers.
pub open spec fn cross(ax: int, ay: int, bx: int, by: int) -> int {
    ax * by - ay * bx
}

/// Dot product over the integers.
pub open spec fn dot(ax: int, ay: int, bx: int, by: int) -> int {
    ax * bx + ay * by
}

/// Squared distance between two points.
pub open spec fn dist_sq(a: Point, b: Point) -> int {
    dot(a.x - b.x, a.y - b.y, a.x - b.x, a.y - b.y)
}

/// Cross product of the edge `s -> e` with the vector from `s` to `p`.
pub open spec fn edge_cross(s: Point, e: Point, p: Point) -> int {
    cross(e.x - s.x, e.y - s.y, p.x - s.x, p.y - s.y)
}

/// Which side of the oriented line `s -> e` the point `p` lies on.
pub open spec fn side(s: Point, e: Point, p: Point) -> int {
    sign(edge_cross(s, e, p))
}

pub proof fn lemma_mul_bound(a: int, b: int, la: int, lb: int)
    requires
        -la <= a <= la,
        -lb <= b <= lb,
    ensures
        -(la * lb) <= a * b <= la * lb,
{
    assert(-(la * lb) <= a * b <= la * lb) by (nonlinear_arith)
        requires
            -la <= a <= la,
            -lb <= b <= lb,
    ;
}

pub fn cross_product(a: Point, b: Point) -> (r: i128)
    requires
        a.within(2 * REACH_LIMIT),
        b.within(2 * REACH_LIMIT),
    ensures
        r == cross(a.x as int, a.y as int, b.x as int, b.y as int),
        -CROSS_LIMIT <= r <= CROSS_LIMIT,
{
    proof {
        let l: int = 1073741824;
        assert(l * l == 1152921504606846976) by (nonlinear_arith)
            requires
                l == 1073741824,
        ;
        lemma_mul_bound(a.x as int, b.y as int, l, l);
        lemma_mul_bound(a.y as int, b.x as int, l, l);
    }
    (a.x as i128) * (b.y as i128) - (a.y as i128) * (b.x as i128)
}

fn diff(a: Point, b: Point) -> (r: Point)
    requires
        a.within(REACH_LIMIT as int),
        b.within(REACH_LIMIT as int),
    ensures
        r.x == a.x - b.x,
        r.y == a.y - b.y,
        r.within(2 * REACH_LIMIT),
{
    Point { x: a.x - b.x, y: a.y - b.y }
}

/// Side of the oriented line `line_start -> line_end` on which `point` lies:
/// 1 on the left, -1 on the right, 0 on the line.
pub fn side_of_line_detection(line_start: Point, line_end: Point, point: Point) -> (r: i8)
    requires
        line_start.within(REACH_LIMIT as int),
        line_end.within(REACH_LIMIT as int),
        point.within(REACH_LIMIT as int),
    ensures
        r == side(line_start, line_end, point),
{
    let det = cross_product(diff(line_end, line_start), diff(point, line_start));
    if det > 0 {
        1
    } else if det < 0 {
        -1
    } else {
        0
    }
}

/// Reversing the orientation of a line flips the side of every point; a point
/// on the line is on neither side.
pub proof fn lemma_side_antisymmetric(s: Point, e: Point, p: Point)
    ensures
        side(s, e, p) == -side(e, s, p),
        edge_cross(s, e, p) == 0 ==> side(s, e, p) == 0,
{
    assert(edge_cross(s, e, p) == -edge_cross(e, s, p)) by (nonlinear_arith);
}

/// The mirror image of a point through the start of a line lies on the other side.
pub proof fn lemma_side_mirror(s: Point, e: Point, p: Point, q: Point)
    requires
        q.x == 2 * s.x - p.x,
        q.y == 2 * s.y - p.y,
    ensures
        side(s, e, q) == -side(s, e, p),
{
    assert(edge_cross(s, e, q) == -edge_cross(s, e, p)) by (nonlinear_arith)
        requires
            q.x == 2 * s.x - p.x,
            q.y == 2 * s.y - p.y,
    ;
}

/// Where two segments cross: at `t_num / den` along the first and `u_num / den`
/// along the second.
#[derive(Clone, Copy, Debug, PartialEq, Eq, Structural)]
pub struct Intersection {
    pub t_num: i128,
    pub u_num: i128,
    pub den: i128,
}

impl Intersection {
    /// The crossing point, as `x_num / den` on the first segment.
    pub open spec fn x_num(self, p1: Point, p2: Point) -> int {
        p1.x * self.den + self.t_num * (p2.x - p1.x)
    }

    pub open spec fn y_num(self, p1: Point, p2: Point) -> int {
        p1.y * self.den + self.t_num * (p2.y - p1.y)
    }
}

/// Cross product of the directions of the two segments.
pub open spec fn dir_cross(p1: Point, p2: Point, q1: Point, q2: Point) -> int {
    cross(p2.x - p1.x, p2.y - p1.y, q2.x - q1.x, q2.y - q1.y)
}

/// The parameter along `p1 -> p2` of the crossing, scaled by `dir_cross`.
pub open spec fn t_scaled(p1: Point, p2: Point, q1: Point, q2: Point) -> int {
    cross(q1.x - p1.x, q1.y - p1.y, q2.x - q1.x, q2.y - q1.y)
}

/// The parameter along `q1 -> q2` of the crossing, scaled by `dir_cross`.
pub open spec fn u_scaled(p1: Point, p2: Point, q1: Point, q2: Point) -> int {
    cross(q1.x - p1.x, q1.y - p1.y, p2.x - p1.x, p2.y - p1.y)
}

/// `n / d` lies in the closed unit interval (false when `d` is zero).
pub open spec fn ratio_in_unit(n: int, d: int) -> bool {
    (d > 0 && 0 <= n <= d) || (d < 0 && d <= n <= 0)
}

/// The segments `p1 -> p2` and `q1 -> q2` are not parallel and cross each other.
pub open spec fn segments_cross(p1: Point, p2: Point, q1: Point, q2: Point) -> bool {
    let d = dir_cross(p1, p2, q1, q2);
    ratio_in_unit(t_scaled(p1, p2, q1, q2), d) && ratio_in_unit(u_scaled(p1, p2, q1, q2), d)
}

/// Parallel segments never cross, and neither do segments that meet only
/// where one of the two parameters lies outside the closed unit interval.
pub proof fn lemma_no_crossing(p1: Point, p2: Point, q1: Point, q2: Point)
    ensures
        dir_cross(p1, p2, q1, q2) == 0 ==> !segments_cross(p1, p2, q1, q2),
        !ratio_in_unit(t_scaled(p1, p2, q1, q2), dir_cross(p1, p2, q1, q2)) ==> !segments_cross(
            p1,
            p2,
            q1,
            q2,
        ),
        !ratio_in_unit(u_scaled(p1, p2, q1, q2), dir_cross(p1, p2, q1, q2)) ==> !segments_cross(
            p1,
            p2,
            q1,
            q2,
        ),
{
}

pub fn line_intersect(line_1_start: Point, line_1_end: Point, line_2_start: Point, line_2_end: Point)
    -> (r: Option<Intersection>)
    requires
        line_1_start.within(REACH_LIMIT as int),
        line_1_end.within(REACH_LIMIT as int),
        line_2_start.within(REACH_LIMIT as int),
        line_2_end.within(REACH_LIMIT as int),
    ensures
        r is Some <==> segments_cross(line_1_start, line_1_end, line_2_start, line_2_end),
        r matches Some(i) ==> {
            &&& 0 < i.den
            &&& 0 <= i.t_num <= i.den
            &&& 0 <= i.u_num <= i.den
            &&& i.den * sign(dir_cross(line_1_start, line_1_end, line_2_start, line_2_end))
                == dir_cross(line_1_start, line_1_end, line_2_start, line_2_end)
            &&& i.x_num(line_1_start, line_1_end) == line_2_start.x * i.den + i.u_num * (
            line_2_end.x - line_2_start.x)
            &&& i.y_num(line_1_start, line_1_end) == line_2_start.y * i.den + i.u_num * (
            line_2_end.y - line_2_start.y)
        },
{
    let line_1 = diff(line_1_end, line_1_start);
    let line_2 = diff(line_2_end, line_2_start);
    let a_to_c = diff(line_2_start, line_1_start);
    let r_cross_s = cross_product(line_1, line_2);
    let t = cross_product(a_to_c, line_2);
    let u = cross_product(a_to_c, line_1);
    if r_cross_s == 0 {
        return None;
    }
    let (den, t_num, u_num) = if r_cross_s > 0 {
        (r_cross_s, t, u)
    } else {
        (-r_cross_s, -t, -u)
    };
    if 0 <= t_num && t_num <= den && 0 <= u_num && u_num <= den {
        proof {
            lemma_crossing_point(line_1_start, line_1_end, line_2_start, line_2_end);
            if r_cross_s < 0 {
                lemma_negated_decomposition(
                    (line_2_start.x - line_1_start.x) as int,
                    r_cross_s as int,
                    t as int,
                    (line_1_end.x - line_1_start.x) as int,
                    u as int,
                    (line_2_end.x - line_2_start.x) as int,
                );
                lemma_negated_decomposition(
                    (line_2_start.y - line_1_start.y) as int,
                    r_cross_s as int,
                    t as int,
                    (line_1_end.y - line_1_start.y) as int,
                    u as int,
                    (line_2_end.y - line_2_start.y) as int,
                );
            }
            lemma_shared_point(
                line_1_start.x as int,
                line_2_start.x as int,
                den as int,
                t_num as int,
                (line_1_end.x - line_1_start.x) as int,
                u_num as int,
                (line_2_end.x - line_2_start.x) as int,
            );
            lemma_shared_point(
                line_1_start.y as int,
                line_2_start.y as int,
                den as int,
                t_num as int,
                (line_1_end.y - line_1_start.y) as int,
                u_num as int,
                (line_2_end.y - line_2_start.y) as int,
            );
        }
        Some(Intersection { t_num, u_num, den })
    } else {
        None
    }
}

proof fn lemma_shared_point(p: int, q: int, d: int, t: int, r: int, u: int, s: int)
    requires
        (q - p) * d == t * r - u * s,
    ensures
        p * d + t * r == q * d + u * s,
{
    assert(p * d + t * r == q * d + u * s) by (nonlinear_arith)
        requires
            (q - p) * d == t * r - u * s,
    ;
}

proof fn lemma_negated_decomposition(a: int, c: int, t: int, r: int, u: int, s: int)
    requires
        a * c == t * r - u * s,
    ensures
        a * -c == -t * r - -u * s,
{
    assert(a * -c == -t * r - -u * s) by (nonlinear_arith)
        requires
            a * c == t * r - u * s,
    ;
}

/// For any two non-parallel directions `r` and `s`, a vector `a` decomposes as
/// `a * cross(r, s) == cross(a, s) * r - cross(a, r) * s`.
proof fn lemma_crossing_point(p1: Point, p2: Point, q1: Point, q2: Point)
    ensures
        (q1.x - p1.x) * dir_cross(p1, p2, q1, q2) == t_scaled(p1, p2, q1, q2) * (p2.x - p1.x)
            - u_scaled(p1, p2, q1, q2) * (q2.x - q1.x),
        (q1.y - p1.y) * dir_cross(p1, p2, q1, q2) == t_scaled(p1, p2, q1, q2) * (p2.y - p1.y)
            - u_scaled(p1, p2, q1, q2) * (q2.y - q1.y),
{
    let ax = q1.x - p1.x;
    let ay = q1.y - p1.y;
    let rx = p2.x - p1.x;
    let ry = p2.y - p1.y;
    let sx = q2.x - q1.x;
    let sy = q2.y - q1.y;
    assert(ax * (rx * sy - ry * sx) == ax * rx * sy - ax * ry * sx) by (nonlinear_arith);
    assert((ax * sy - ay * sx) * rx == ax * rx * sy - ay * rx * sx) by (nonlinear_arith);
    assert((ax * ry - ay * rx) * sx == ax * ry * sx - ay * rx * sx) by (nonlinear_arith);
    assert(ay * (rx * sy - ry * sx) == ay * rx * sy - ay * ry * sx) by (nonlinear_arith);
    assert((ax * sy - ay * sx) * ry == ax * ry * sy - ay * ry * sx) by (nonlinear_arith);
    assert((ax * ry - ay * rx) * sy == ax * ry * sy - ay * rx * sy) by (nonlinear_arith);
}

} // verus!

verus! {

/// Where the perpendicular foot of a point falls relative to a segment.
#[derive(Clone, Copy, Debug, PartialEq, Eq, Structural)]
pub enum Placement {
    BeforeStart,
    Within,
    PastEnd,
}

/// Result of projecting a point onto a segment, with every quantity scaled by
/// `den`, the squared length of the segment.
#[derive(Clone, Copy, Debug, PartialEq, Eq, Structural)]
pub struct Projection {
    pub placement: Placement,
    /// The penalised squared distance, times `den`.
    pub dist_num: i128,
    /// The foot of the perpendicular on the segment's line, times `den`.
    pub foot_x: i128,
    pub foot_y: i128,
    pub den: i128,
    /// Cross product of the segment with the vector from its start to the point.
    pub side_cross: i128,
}

/// Squared length of the segment `s -> e`.
pub open spec fn len_sq(s: Point, e: Point) -> int {
    dist_sq(e, s)
}

/// Dot product of the segment `s -> e` with the vector from `s` to `p`.
pub open spec fn along(s: Point, e: Point, p: Point) -> int {
    dot(e.x - s.x, e.y - s.y, p.x - s.x, p.y - s.y)
}

pub open spec fn placement_of(s: Point, e: Point, p: Point) -> Placement {
    if along(s, e, p) < 0 {
        Placement::BeforeStart
    } else if along(s, e, p) > len_sq(s, e) {
        Placement::PastEnd
    } else {
        Placement::Within
    }
}

/// Squared distance used to rank segments: the distance to the line when the
/// foot lies on the segment, otherwise the distance to the nearer end point
/// plus a penalty of twice the squared radius.
pub open spec fn penalised_dist_num(s: Point, e: Point, p: Point, radius: int) -> int {
    match placement_of(s, e, p) {
        Placement::BeforeStart => (dist_sq(p, s) + 2 * radius * radius) * len_sq(s, e),
        Placement::PastEnd => (dist_sq(p, e) + 2 * radius * radius) * len_sq(s, e),
        Placement::Within => edge_cross(s, e, p) * edge_cross(s, e, p),
    }
}

pub open spec fn projection_spec(s: Point, e: Point, p: Point, radius: int) -> Projection {
    Projection {
        placement: placement_of(s, e, p),
        dist_num: penalised_dist_num(s, e, p, radius) as i128,
        foot_x: (s.x * len_sq(s, e) + (e.x - s.x) * along(s, e, p)) as i128,
        foot_y: (s.y * len_sq(s, e) + (e.y - s.y) * along(s, e, p)) as i128,
        den: len_sq(s, e) as i128,
        side_cross: edge_cross(s, e, p) as i128,
    }
}

/// Projects `point` onto the line through `start` and `end`; `None` for a
/// segment of length zero.
pub fn find_projection(start: Point, end: Point, point: Point, radius: i64) -> (r: Option<Projection>)
    requires
        start.in_range(),
        end.in_range(),
        point.in_range(),
        0 < radius <= COORD_LIMIT,
    ensures
        r is None <==> start == end,
        r matches Some(pr) ==> {
            &&& pr == projection_spec(start, end, point, radius as int)
            &&& pr.side_cross == edge_cross(start, end, point)
            &&& pr.den == len_sq(start, end)
            &&& pr.dist_num == penalised_dist_num(start, end, point, radius as int)
            &&& 0 < pr.den <= 1152921504606846976
            &&& -1152921504606846976 <= pr.side_cross <= 1152921504606846976
        },
{
    let lx = (end.x - start.x) as i128;
    let ly = (end.y - start.y) as i128;
    let px = (point.x - start.x) as i128;
    let py = (point.y - start.y) as i128;
    let ghost l: int = 536870912int;
    proof {
        lemma_mul_bound(lx as int, lx as int, l, l);
        lemma_mul_bound(ly as int, ly as int, l, l);
        lemma_mul_bound(px as int, lx as int, l, l);
        lemma_mul_bound(py as int, ly as int, l, l);
        lemma_mul_bound(lx as int, py as int, l, l);
        lemma_mul_bound(ly as int, px as int, l, l);
        lemma_mul_bound(px as int, px as int, l, l);
        lemma_mul_bound(py as int, py as int, l, l);
        lemma_mul_bound(radius as int, radius as int, l, l);
        assert(lx * lx >= 0 && ly * ly >= 0 && px * px >= 0 && py * py >= 0) by (nonlinear_arith);
    }
    let len2 = lx * lx + ly * ly;
    if len2 == 0 {
        proof {
            assert(lx == 0 && ly == 0) by (nonlinear_arith)
                requires
                    lx * lx + ly * ly == 0,
            ;
        }
        return None;
    }
    proof {
        assert(lx != 0 || ly != 0) by (nonlinear_arith)
            requires
                lx * lx + ly * ly != 0,
        ;
        assert(start != end);
    }
    let dot_se = px * lx + py * ly;
    let side_cross = lx * py - ly * px;
    assert(dot_se == along(start, end, point));
    assert(len2 == len_sq(start, end));
    let ghost big: int = 1152921504606846976int;
    proof {
        lemma_mul_bound(start.x as int, len2 as int, l, big);
        lemma_mul_bound(start.y as int, len2 as int, l, big);
        lemma_mul_bound(lx as int, dot_se as int, l, big);
        lemma_mul_bound(ly as int, dot_se as int, l, big);
        lemma_mul_bound(side_cross as int, side_cross as int, big, big);
    }
    let foot_x = (start.x as i128) * len2 + lx * dot_se;
    let foot_y = (start.y as i128) * len2 + ly * dot_se;
    let penalty = 2 * ((radius as i128) * (radius as i128));
    proof {
        assert(penalty == 2 * radius * radius) by (nonlinear_arith)
            requires
                penalty == 2 * (radius * radius),
        ;
    }
    let (placement, dist_num) = if dot_se < 0 {
        let near = px * px + py * py + penalty;
        proof {
            lemma_mul_bound(near as int, len2 as int, 4 * big, big);
        }
        (Placement::BeforeStart, near * len2)
    } else if dot_se > len2 {
        let qx = (point.x - end.x) as i128;
        let qy = (point.y - end.y) as i128;
        proof {
            lemma_mul_bound(qx as int, qx as int, l, l);
            lemma_mul_bound(qy as int, qy as int, l, l);
            assert(qx * qx >= 0 && qy * qy >= 0) by (nonlinear_arith);
        }
        let near = qx * qx + qy * qy + penalty;
        proof {
            lemma_mul_bound(near as int, len2 as int, 4 * big, big);
        }
        (Placement::PastEnd, near * len2)
    } else {
        (Placement::Within, side_cross * side_cross)
    };
    Some(Projection { placement, dist_num, foot_x, foot_y, den: len2, side_cross })
}

} // verus!

verus! {

/// The offset from the foot of the perpendicular to the point is the edge's
/// left-hand normal `(-ly, lx)` scaled by the cross product.
pub proof fn lemma_projection_offset(s: Point, e: Point, p: Point)
    ensures
        p.x * len_sq(s, e) - (s.x * len_sq(s, e) + (e.x - s.x) * along(s, e, p)) == -(e.y - s.y)
            * edge_cross(s, e, p),
        p.y * len_sq(s, e) - (s.y * len_sq(s, e) + (e.y - s.y) * along(s, e, p)) == (e.x - s.x)
            * edge_cross(s, e, p),
{
    let lx = e.x - s.x;
    let ly = e.y - s.y;
    let px = p.x - s.x;
    let py = p.y - s.y;
    let l = lx * lx + ly * ly;
    let d = px * lx + py * ly;
    let c = lx * py - ly * px;
    assert(p.x * l - (s.x * l + lx * d) == px * l - lx * d) by (nonlinear_arith)
        requires
            px == p.x - s.x,
    ;
    assert(p.y * l - (s.y * l + ly * d) == py * l - ly * d) by (nonlinear_arith)
        requires
            py == p.y - s.y,
    ;
    assert(px * (lx * lx + ly * ly) - lx * (px * lx + py * ly) == -ly * (lx * py - ly * px))
        by (nonlinear_arith);
    assert(py * (lx * lx + ly * ly) - ly * (px * lx + py * ly) == lx * (lx * py - ly * px))
        by (nonlinear_arith);
}

/// When the foot of the perpendicular lies on the segment, the projection's
/// squared distance is exactly the squared distance from the point to the
/// foot; before the start or past the end it is the squared distance to that
/// end point plus twice the squared radius.
pub proof fn lemma_projection_distance(s: Point, e: Point, p: Point, radius: int)
    requires
        s != e,
    ensures
        ({
            let pr = projection_spec(s, e, p, radius);
            let den = len_sq(s, e);
            let fx = s.x * den + (e.x - s.x) * along(s, e, p);
            let fy = s.y * den + (e.y - s.y) * along(s, e, p);
            &&& den > 0
            &&& placement_of(s, e, p) == Placement::Within ==> penalised_dist_num(s, e, p, radius)
                * den == (p.x * den - fx) * (p.x * den - fx) + (p.y * den - fy) * (p.y * den - fy)
            &&& placement_of(s, e, p) == Placement::BeforeStart ==> penalised_dist_num(
                s,
                e,
                p,
                radius,
            ) == (dist_sq(p, s) + 2 * radius * radius) * den
            &&& placement_of(s, e, p) == Placement::PastEnd ==> penalised_dist_num(s, e, p, radius)
                == (dist_sq(p, e) + 2 * radius * radius) * den
        }),
{
    let lx = e.x - s.x;
    let ly = e.y - s.y;
    let c = edge_cross(s, e, p);
    assert(lx * lx + ly * ly > 0) by (nonlinear_arith)
        requires
            lx != 0 || ly != 0,
    ;
    lemma_projection_offset(s, e, p);
    assert(c * c * (lx * lx + ly * ly) == (-ly * c) * (-ly * c) + (lx * c) * (lx * c))
        by (nonlinear_arith);
}

} // verus!
