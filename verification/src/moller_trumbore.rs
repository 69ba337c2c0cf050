//! The determinants behind the ray/triangle test, as exact integers.

use vstd::prelude::*;
use crate::algebra::lemma_dot_negated;
use crate::algebra::lemma_dot_sum;
use crate::algebra::lemma_gather;
use crate::algebra::lemma_spread;
use crate::algebra::lemma_triple_flip;
use crate::algebra::lemma_triple_swap;
use crate::algebra::lemma_triple_twice;
use crate::fixed::DISTANCE_LIMIT;
use crate::fixed::EPSILON_BUMP;
use crate::fixed::fixed_ratio;
use crate::fixed::lemma_product_bound;
use crate::fixed::lemma_quotient_bound;
use crate::fixed::lemma_quotient_brackets;
use crate::fixed::lemma_quotient_sum;
use crate::fixed::lemma_ratio_negated;
use crate::fixed::magnitude;
use crate::fixed::ONE;
use crate::vector::Triple;
use crate::vector::Vec4;

verus! {

/// `e1 . (d x e2)`: zero exactly when the direction `d` lies in the
/// plane spanned by the edges `e1` and `e2`.
pub open spec fn determinant(e1: Triple, e2: Triple, d: Triple) -> int {
    e1.dot(d.cross(e2))
}

/// `s . (d x e2)`, where `s` leads from the first vertex to the ray's
/// origin: the first barycentric weight times the determinant.
pub open spec fn u_numerator(e2: Triple, d: Triple, s: Triple) -> int {
    s.dot(d.cross(e2))
}

/// `d . (s x e1)`: the second barycentric weight times the determinant.
pub open spec fn v_numerator(e1: Triple, d: Triple, s: Triple) -> int {
    d.dot(s.cross(e1))
}

/// `e2 . (s x e1)`: the distance along the ray times the determinant.
pub open spec fn t_numerator(e1: Triple, e2: Triple, s: Triple) -> int {
    e2.dot(s.cross(e1))
}

/// The determinant at or below which a ray counts as parallel to the
/// triangle's plane: `EPSILON_BUMP`, in the unit of a product of three
/// raw values.
pub const DET_EPSILON: i128 = 0x7_0000_0000;

/// `DET_EPSILON` is `EPSILON_BUMP` brought to the scale of a determinant.
pub proof fn lemma_det_epsilon()
    ensures
        DET_EPSILON == EPSILON_BUMP * ONE * ONE,
{
}

/// Largest magnitude of an edge of a triangle, and of the step from its
/// first vertex to a ray's origin: twice the coordinate range.
pub const SPAN_LIMIT: i64 = 0x8000_0000;

/// The ray meets the triangle. The determinant is clear of zero, and
/// the barycentric weights `u = u_numerator / determinant` and
/// `v = v_numerator / determinant` satisfy `0 <= u <= 1`, `0 <= v` and
/// `u + v <= 1`. The sign of the determinant plays no part: the comparisons
/// are those of the exact fractions.
pub open spec fn meets(e1: Triple, e2: Triple, d: Triple, s: Triple) -> bool {
    let det = determinant(e1, e2, d);
    let un = u_numerator(e2, d, s);
    let vn = v_numerator(e1, d, s);
    if det > DET_EPSILON {
        0 <= un <= det && 0 <= vn && un + vn <= det
    } else if det < -DET_EPSILON {
        det <= un <= 0 && vn <= 0 && det <= un + vn
    } else {
        false
    }
}

/// The first barycentric weight on the fixed-point grid.
pub open spec fn weight_u(e1: Triple, e2: Triple, d: Triple, s: Triple) -> int {
    fixed_ratio(u_numerator(e2, d, s), determinant(e1, e2, d))
}

/// The second barycentric weight on the fixed-point grid.
pub open spec fn weight_v(e1: Triple, e2: Triple, d: Triple, s: Triple) -> int {
    fixed_ratio(v_numerator(e1, d, s), determinant(e1, e2, d))
}

/// The distance along the ray on the fixed-point grid.
pub open spec fn distance(e1: Triple, e2: Triple, d: Triple, s: Triple) -> int {
    fixed_ratio(t_numerator(e1, e2, s), determinant(e1, e2, d))
}

/// Largest magnitude of a component of a cross product of two vectors
/// within `SPAN_LIMIT`.
pub const CROSS_LIMIT: i128 = 0x8000_0000_0000_0000;

/// A cross product of two fixed-point vectors, kept exactly.
pub struct Wide3 {
    pub x: i128,
    pub y: i128,
    pub z: i128,
}

impl Wide3 {
    pub open spec fn exact(self) -> Triple {
        Triple { x: self.x as int, y: self.y as int, z: self.z as int }
    }
}

/// `a * b - c * d`, exactly.
fn minor(a: i64, b: i64, c: i64, d: i64) -> (r: i128)
    requires
        -SPAN_LIMIT <= a <= SPAN_LIMIT,
        -SPAN_LIMIT <= b <= SPAN_LIMIT,
        -SPAN_LIMIT <= c <= SPAN_LIMIT,
        -SPAN_LIMIT <= d <= SPAN_LIMIT,
    ensures
        r == a * b - c * d,
        -CROSS_LIMIT <= r <= CROSS_LIMIT,
{
    proof {
        lemma_product_bound(a as int, b as int, SPAN_LIMIT as int, SPAN_LIMIT as int);
        lemma_product_bound(c as int, d as int, SPAN_LIMIT as int, SPAN_LIMIT as int);
    }
    (a as i128) * (b as i128) - (c as i128) * (d as i128)
}

/// The cross product of the spatial parts of `a` and `b`, exactly.
pub fn cross_exact(a: &Vec4, b: &Vec4) -> (r: Wide3)
    requires
        a.exact().within(SPAN_LIMIT as int),
        b.exact().within(SPAN_LIMIT as int),
    ensures
        r.exact() == a.exact().cross(b.exact()),
        r.exact().within(CROSS_LIMIT as int),
{
    Wide3 {
        x: minor(a.y, b.z, a.z, b.y),
        y: minor(a.z, b.x, a.x, b.z),
        z: minor(a.x, b.y, a.y, b.x),
    }
}

/// The dot product of the spatial part of `a` with a cross product,
/// exactly.
pub fn dot_exact(a: &Vec4, c: &Wide3) -> (r: i128)
    requires
        a.exact().within(SPAN_LIMIT as int),
        c.exact().within(CROSS_LIMIT as int),
    ensures
        r == a.exact().dot(c.exact()),
        -3 * (SPAN_LIMIT * CROSS_LIMIT) <= r <= 3 * (SPAN_LIMIT * CROSS_LIMIT),
{
    proof {
        lemma_product_bound(a.x as int, c.x as int, SPAN_LIMIT as int, CROSS_LIMIT as int);
        lemma_product_bound(a.y as int, c.y as int, SPAN_LIMIT as int, CROSS_LIMIT as int);
        lemma_product_bound(a.z as int, c.z as int, SPAN_LIMIT as int, CROSS_LIMIT as int);
    }
    (a.x as i128) * c.x + (a.y as i128) * c.y + (a.z as i128) * c.z
}

/// Where a ray meets a triangle, the barycentric weights of the point
/// lie between zero and one, and so does their sum.
pub proof fn lemma_weights_in_range(e1: Triple, e2: Triple, d: Triple, s: Triple)
    requires
        meets(e1, e2, d, s),
    ensures
        0 <= weight_u(e1, e2, d, s) <= ONE,
        0 <= weight_v(e1, e2, d, s) <= ONE,
        weight_u(e1, e2, d, s) + weight_v(e1, e2, d, s) <= ONE,
{
    let det = magnitude(determinant(e1, e2, d));
    let un = magnitude(u_numerator(e2, d, s));
    let vn = magnitude(v_numerator(e1, d, s));
    assert(un + vn <= det);
    lemma_quotient_bound(un * ONE, det, ONE as int);
    lemma_quotient_bound(vn * ONE, det, ONE as int);
    lemma_quotient_bound((un + vn) * ONE, det, ONE as int);
    lemma_quotient_sum(un * ONE, vn * ONE, det);
}

/// What is reported of a meeting is the exact value brought down to the
/// grid. Each weight is its fraction times `ONE`, rounded down; the
/// distance is its fraction times `ONE`, rounded toward zero, with the
/// fraction's sign.
pub proof fn lemma_reported_values_are_rounded(e1: Triple, e2: Triple, d: Triple, s: Triple)
    requires
        meets(e1, e2, d, s),
    ensures
        ({
            let det = magnitude(determinant(e1, e2, d));
            let un = magnitude(u_numerator(e2, d, s));
            let vn = magnitude(v_numerator(e1, d, s));
            let tn = magnitude(t_numerator(e1, e2, s));
            let (u, v) = (weight_u(e1, e2, d, s), weight_v(e1, e2, d, s));
            let t = distance(e1, e2, d, s);
            &&& u * det <= un * ONE < (u + 1) * det
            &&& v * det <= vn * ONE < (v + 1) * det
            &&& magnitude(t) * det <= tn * ONE < (magnitude(t) + 1) * det
            &&& t < 0 ==> (t_numerator(e1, e2, s) < 0) != (determinant(e1, e2, d) < 0)
            &&& t > 0 ==> (t_numerator(e1, e2, s) < 0) == (determinant(e1, e2, d) < 0)
        }),
{
    let det = magnitude(determinant(e1, e2, d));
    let un = magnitude(u_numerator(e2, d, s));
    let vn = magnitude(v_numerator(e1, d, s));
    let tn = magnitude(t_numerator(e1, e2, s));
    lemma_quotient_brackets(un * ONE, det);
    lemma_quotient_brackets(vn * ONE, det);
    lemma_quotient_brackets(tn * ONE, det);
}

/// The determinant measures how far the direction leaves the triangle's
/// plane: it is the direction's dot product with the plane's normal
/// `e1 x e2`, up to sign.
pub proof fn lemma_determinant_is_plane_test(e1: Triple, e2: Triple, d: Triple)
    ensures
        determinant(e1, e2, d) == -d.dot(e1.cross(e2)),
{
    lemma_triple_swap(e1, d, e2);
}

/// A ray that runs parallel to the triangle's plane meets nothing,
/// wherever it starts; nor does one that leaves the plane by no more
/// than `DET_EPSILON`.
pub proof fn lemma_parallel_ray_misses(e1: Triple, e2: Triple, d: Triple, s: Triple)
    requires
        magnitude(d.dot(e1.cross(e2))) <= DET_EPSILON,
    ensures
        !meets(e1, e2, d, s),
{
    lemma_determinant_is_plane_test(e1, e2, d);
}

/// A triangle without area meets no ray.
pub proof fn lemma_flat_triangle_misses(e1: Triple, e2: Triple, d: Triple, s: Triple)
    requires
        e1.cross(e2) == (Triple { x: 0, y: 0, z: 0 }),
    ensures
        !meets(e1, e2, d, s),
{
    let n = e1.cross(e2);
    assert(d.x * n.x + d.y * n.y + d.z * n.z == 0) by (nonlinear_arith)
        requires
            n.x == 0,
            n.y == 0,
            n.z == 0,
    ;
    lemma_parallel_ray_misses(e1, e2, d, s);
}

/// Seen from the other side, with its edges exchanged, a triangle is met
/// by the same rays at the same distance; the two weights change
/// places.
pub proof fn lemma_sides_agree(e1: Triple, e2: Triple, d: Triple, s: Triple)
    ensures
        determinant(e2, e1, d) == -determinant(e1, e2, d),
        u_numerator(e1, d, s) == -v_numerator(e1, d, s),
        v_numerator(e2, d, s) == -u_numerator(e2, d, s),
        t_numerator(e2, e1, s) == -t_numerator(e1, e2, s),
        meets(e2, e1, d, s) == meets(e1, e2, d, s),
        meets(e1, e2, d, s) ==> weight_u(e2, e1, d, s) == weight_v(e1, e2, d, s),
        meets(e1, e2, d, s) ==> weight_v(e2, e1, d, s) == weight_u(e1, e2, d, s),
        meets(e1, e2, d, s) ==> distance(e2, e1, d, s) == distance(e1, e2, d, s),
{
    lemma_triple_swap(e2, d, e1);
    lemma_triple_flip(d, e2, e1);
    lemma_triple_swap(e1, d, e2);
    lemma_triple_swap(s, d, e1);
    lemma_triple_swap(d, s, e2);
    lemma_triple_swap(e1, s, e2);
    lemma_triple_flip(s, e1, e2);
    lemma_triple_swap(e2, s, e1);
    let det = determinant(e1, e2, d);
    if det != 0 {
        lemma_ratio_negated(v_numerator(e1, d, s), det);
        lemma_ratio_negated(u_numerator(e2, d, s), det);
        lemma_ratio_negated(t_numerator(e1, e2, s), det);
    }
}

/// A ray turned round, from an origin `k` steps further along, meets
/// the triangle exactly where the first ray does: the determinant and
/// the weights' numerators change sign together, so the weights stay,
/// and the distance `t` becomes `k - t`. From as far behind the triangle
/// as the first origin lies in front of it (`k = 2 t`), the distance is
/// the same.
pub proof fn lemma_reversed_ray(e1: Triple, e2: Triple, d: Triple, s: Triple, k: int)
    ensures
        determinant(e1, e2, d.negated()) == -determinant(e1, e2, d),
        u_numerator(e2, d.negated(), s.plus(d.scale(k))) == -u_numerator(e2, d, s),
        v_numerator(e1, d.negated(), s.plus(d.scale(k))) == -v_numerator(e1, d, s),
        t_numerator(e1, e2, s.plus(d.scale(k))) == t_numerator(e1, e2, s) - k * determinant(
            e1,
            e2,
            d,
        ),
        meets(e1, e2, d.negated(), s.plus(d.scale(k))) == meets(e1, e2, d, s),
        meets(e1, e2, d, s) ==> weight_u(e1, e2, d.negated(), s.plus(d.scale(k))) == weight_u(
            e1,
            e2,
            d,
            s,
        ),
        meets(e1, e2, d, s) ==> weight_v(e1, e2, d.negated(), s.plus(d.scale(k))) == weight_v(
            e1,
            e2,
            d,
            s,
        ),
        meets(e1, e2, d, s) && 2 * t_numerator(e1, e2, s) == k * determinant(e1, e2, d)
            ==> distance(e1, e2, d.negated(), s.plus(d.scale(k))) == distance(e1, e2, d, s),
{
    let back = d.negated();
    let far = s.plus(d.scale(k));
    let det = determinant(e1, e2, d);
    // The determinant.
    lemma_triple_swap(e1, back, e2);
    lemma_dot_negated(d, e1.cross(e2));
    lemma_triple_swap(e1, d, e2);
    assert(determinant(e1, e2, back) == -det);
    // The first weight.
    lemma_triple_swap(far, back, e2);
    lemma_dot_negated(d, far.cross(e2));
    lemma_triple_swap(d, far, e2);
    lemma_dot_sum(s, d, k, d.cross(e2));
    lemma_triple_twice(d, e2);
    assert(u_numerator(e2, back, far) == -u_numerator(e2, d, s));
    // The second weight.
    lemma_dot_negated(d, far.cross(e1));
    lemma_triple_swap(d, far, e1);
    lemma_dot_sum(s, d, k, d.cross(e1));
    lemma_triple_twice(d, e1);
    lemma_triple_swap(d, s, e1);
    assert(v_numerator(e1, back, far) == -v_numerator(e1, d, s));
    // The distance.
    lemma_triple_swap(e2, far, e1);
    lemma_dot_sum(s, d, k, e2.cross(e1));
    lemma_triple_swap(e2, s, e1);
    lemma_triple_flip(d, e2, e1);
    assert(d.dot(e2.cross(e1)) == det);
    assert(t_numerator(e1, e2, far) == t_numerator(e1, e2, s) - k * det);
    if det != 0 {
        lemma_ratio_negated(u_numerator(e2, d, s), det);
        lemma_ratio_negated(v_numerator(e1, d, s), det);
        lemma_ratio_negated(t_numerator(e1, e2, s), det);
    }
}

/// One coordinate of `lemma_solution`. The vectors come coordinate by
/// coordinate, the one in question first and the others in cyclic
/// order; `c` stands for `d x e2` and `r` for `s x e1`.
proof fn lemma_solution_coordinate(
    a0: int, a1: int, a2: int,
    b0: int, b1: int, b2: int,
    d0: int, d1: int, d2: int,
    s0: int, s1: int, s2: int,
    c0: int, c1: int, c2: int,
    r0: int, r1: int, r2: int,
)
    requires
        c1 == d2 * b0 - d0 * b2,
        c2 == d0 * b1 - d1 * b0,
        r1 == s2 * a0 - s0 * a2,
        r2 == s0 * a1 - s1 * a0,
    ensures
        (a0 * c0 + a1 * c1 + a2 * c2) * s0 == (s0 * c0 + s1 * c1 + s2 * c2) * a0 + (d0 * r0 + d1
            * r1 + d2 * r2) * b0 - (b0 * r0 + b1 * r1 + b2 * r2) * d0,
{
    // Left: what the determinant and the first numerator leave of `c`.
    lemma_spread(a0 * c0, a1 * c1, a2 * c2, s0);
    lemma_spread(s0 * c0, s1 * c1, s2 * c2, a0);
    lemma_gather(c0, a0, s0, s0, a0);
    lemma_gather(c1, a1, s0, s1, a0);
    lemma_gather(c2, a2, s0, s2, a0);
    assert(a1 * s0 - s1 * a0 == r2) by (nonlinear_arith)
        requires
            r2 == s0 * a1 - s1 * a0,
    ;
    assert(a2 * s0 - s2 * a0 == -r1) by (nonlinear_arith)
        requires
            r1 == s2 * a0 - s0 * a2,
    ;
    // Right: what the other two numerators leave of `r`.
    lemma_spread(d0 * r0, d1 * r1, d2 * r2, b0);
    lemma_spread(b0 * r0, b1 * r1, b2 * r2, d0);
    lemma_gather(r0, d0, b0, b0, d0);
    lemma_gather(r1, d1, b0, b1, d0);
    lemma_gather(r2, d2, b0, b2, d0);
    assert(d1 * b0 - b1 * d0 == -c2) by (nonlinear_arith)
        requires
            c2 == d0 * b1 - d1 * b0,
    ;
    assert(d2 * b0 - b2 * d0 == c1) by (nonlinear_arith)
        requires
            c1 == d2 * b0 - d0 * b2,
    ;
    assert(c0 * (a0 * s0 - s0 * a0) == 0) by (nonlinear_arith);
    assert(r0 * (d0 * b0 - b0 * d0) == 0) by (nonlinear_arith);
    assert(c1 * r2 + c2 * (-r1) == r1 * (-c2) + r2 * c1) by (nonlinear_arith);
}

/// The three numerators solve `s = u e1 + v e2 - t d`, scaled by the
/// determinant.
pub proof fn lemma_solution(e1: Triple, e2: Triple, d: Triple, s: Triple)
    ensures
        determinant(e1, e2, d) * s.x == u_numerator(e2, d, s) * e1.x + v_numerator(e1, d, s)
            * e2.x - t_numerator(e1, e2, s) * d.x,
        determinant(e1, e2, d) * s.y == u_numerator(e2, d, s) * e1.y + v_numerator(e1, d, s)
            * e2.y - t_numerator(e1, e2, s) * d.y,
        determinant(e1, e2, d) * s.z == u_numerator(e2, d, s) * e1.z + v_numerator(e1, d, s)
            * e2.z - t_numerator(e1, e2, s) * d.z,
{
    let c = d.cross(e2);
    let r = s.cross(e1);
    lemma_solution_coordinate(
        e1.x, e1.y, e1.z, e2.x, e2.y, e2.z, d.x, d.y, d.z, s.x, s.y, s.z,
        c.x, c.y, c.z, r.x, r.y, r.z,
    );
    lemma_solution_coordinate(
        e1.y, e1.z, e1.x, e2.y, e2.z, e2.x, d.y, d.z, d.x, s.y, s.z, s.x,
        c.y, c.z, c.x, r.y, r.z, r.x,
    );
    lemma_solution_coordinate(
        e1.z, e1.x, e1.y, e2.z, e2.x, e2.y, d.z, d.x, d.y, s.z, s.x, s.y,
        c.z, c.x, c.y, r.z, r.x, r.y,
    );
}

/// A direction without length has no determinant.
proof fn lemma_direction_matters(e1: Triple, e2: Triple, d: Triple)
    requires
        d.x == 0,
        d.y == 0,
        d.z == 0,
    ensures
        determinant(e1, e2, d) == 0,
{
    let c = d.cross(e2);
    assert(c.x == 0 && c.y == 0 && c.z == 0) by (nonlinear_arith)
        requires
            c.x == d.y * e2.z - d.z * e2.y,
            c.y == d.z * e2.x - d.x * e2.z,
            c.z == d.x * e2.y - d.y * e2.x,
            d.x == 0,
            d.y == 0,
            d.z == 0,
    ;
    assert(e1.x * c.x + e1.y * c.y + e1.z * c.z == 0) by (nonlinear_arith)
        requires
            c.x == 0,
            c.y == 0,
            c.z == 0,
    ;
}

/// One coordinate of the solved system bounds the distance's numerator:
/// the point that the ray reaches lies among the triangle's vertices, so
/// the ray cannot have gone further than from its origin to there.
proof fn lemma_numerator_bound(
    det: int, un: int, vn: int, tn: int,
    a: int, b: int, step: int, from: int, limit: int,
)
    requires
        det * from == un * a + vn * b - tn * step,
        -limit <= a <= limit,
        -limit <= b <= limit,
        -limit <= from <= limit,
        step != 0,
        magnitude(un) + magnitude(vn) <= magnitude(det),
    ensures
        magnitude(tn) <= (2 * limit) * magnitude(det),
{
    let (mu, mv, md) = (magnitude(un), magnitude(vn), magnitude(det));
    lemma_product_bound(un, a, mu, limit);
    lemma_product_bound(vn, b, mv, limit);
    lemma_product_bound(det, from, md, limit);
    assert(mu * limit + mv * limit <= md * limit) by (nonlinear_arith)
        requires
            mu + mv <= md,
            0 <= limit,
    ;
    assert((2 * limit) * md == md * limit + md * limit) by (nonlinear_arith);
    assert(magnitude(tn) <= magnitude(tn * step)) by (nonlinear_arith)
        requires
            step != 0,
    ;
}

/// Where a ray meets a triangle whose edges, and whose first vertex seen
/// from the ray's origin, lie within `SPAN_LIMIT`, the distance to the
/// point lies within `DISTANCE_LIMIT`.
pub proof fn lemma_distance_bound(e1: Triple, e2: Triple, d: Triple, s: Triple)
    requires
        e1.within(SPAN_LIMIT as int),
        e2.within(SPAN_LIMIT as int),
        s.within(SPAN_LIMIT as int),
        meets(e1, e2, d, s),
    ensures
        magnitude(t_numerator(e1, e2, s)) <= 0x1_0000_0000 * magnitude(determinant(e1, e2, d)),
        -DISTANCE_LIMIT <= distance(e1, e2, d, s) <= DISTANCE_LIMIT,
{
    let det = determinant(e1, e2, d);
    let un = u_numerator(e2, d, s);
    let vn = v_numerator(e1, d, s);
    let tn = t_numerator(e1, e2, s);
    lemma_solution(e1, e2, d, s);
    if d.x != 0 {
        lemma_numerator_bound(det, un, vn, tn, e1.x, e2.x, d.x, s.x, SPAN_LIMIT as int);
    } else if d.y != 0 {
        lemma_numerator_bound(det, un, vn, tn, e1.y, e2.y, d.y, s.y, SPAN_LIMIT as int);
    } else if d.z != 0 {
        lemma_numerator_bound(det, un, vn, tn, e1.z, e2.z, d.z, s.z, SPAN_LIMIT as int);
    } else {
        lemma_direction_matters(e1, e2, d);
    }
    let (mt, md) = (magnitude(tn), magnitude(det));
    assert(mt * ONE <= 0x1_0000_0000_0000 * md) by (nonlinear_arith)
        requires
            mt <= 0x1_0000_0000 * md,
            ONE == 65536,
    ;
    lemma_quotient_bound(mt * ONE, md, 0x1_0000_0000_0000);
}

} // verus!
