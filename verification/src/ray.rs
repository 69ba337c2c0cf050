//! Rays.

use vstd::prelude::*;
use crate::fixed::COORD_LIMIT;
use crate::fixed::DISTANCE_LIMIT;
use crate::fixed::fixed_mul;
use crate::fixed::lemma_product_bound;
use crate::vector::Vec4;

verus! {

/// A half-line: where it starts and the step it makes per unit of
/// distance.
#[derive(Clone, Copy, Debug, PartialEq, Eq, Structural)]
pub struct Ray {
    pub origin: Vec4,
    pub direction: Vec4,
}

/// `base + t * step` on the fixed-point grid, the product rounded toward
/// zero.
pub open spec fn advance(base: i64, step: i64, t: i64) -> int {
    base + fixed_mul(t as int, step as int)
}

impl Ray {
    /// Origin and direction lie within the coordinate range.
    pub open spec fn wf(self) -> bool {
        &&& self.origin.within(COORD_LIMIT as int)
        &&& self.direction.within(COORD_LIMIT as int)
    }

    /// The point at distance `t`: `origin + t * direction`.
    pub open spec fn position_spec(self, t: i64) -> Vec4 {
        Vec4 {
            x: advance(self.origin.x, self.direction.x, t) as i64,
            y: advance(self.origin.y, self.direction.y, t) as i64,
            z: advance(self.origin.z, self.direction.z, t) as i64,
            w: advance(self.origin.w, self.direction.w, t) as i64,
        }
    }

    pub fn new(origin: Vec4, direction: Vec4) -> (r: Ray)
        ensures
            r.origin == origin,
            r.direction == direction,
    {
        Ray { origin, direction }
    }

    /// Tells whether the ray lies within the coordinate range.
    pub fn is_wf(&self) -> (r: bool)
        ensures
            r == self.wf(),
    {
        self.origin.is_within(COORD_LIMIT) && self.direction.is_within(COORD_LIMIT)
    }

    /// The point at distance `t` along the ray.
    pub fn position(&self, t: i64) -> (p: Vec4)
        requires
            self.wf(),
            -DISTANCE_LIMIT <= t <= DISTANCE_LIMIT,
        ensures
            p == self.position_spec(t),
            p.x == advance(self.origin.x, self.direction.x, t),
            p.y == advance(self.origin.y, self.direction.y, t),
            p.z == advance(self.origin.z, self.direction.z, t),
            p.w == advance(self.origin.w, self.direction.w, t),
    {
        Vec4 {
            x: step_along(self.origin.x, self.direction.x, t),
            y: step_along(self.origin.y, self.direction.y, t),
            z: step_along(self.origin.z, self.direction.z, t),
            w: step_along(self.origin.w, self.direction.w, t),
        }
    }
}

/// One coordinate of a point along a ray.
fn step_along(base: i64, step: i64, t: i64) -> (r: i64)
    requires
        -COORD_LIMIT <= base <= COORD_LIMIT,
        -COORD_LIMIT <= step <= COORD_LIMIT,
        -DISTANCE_LIMIT <= t <= DISTANCE_LIMIT,
    ensures
        r == advance(base, step, t),
{
    proof {
        lemma_product_bound(t as int, step as int, DISTANCE_LIMIT as int, COORD_LIMIT as int);
    }
    let wide: i128 = (t as i128) * (step as i128);
    let moved: i128 = wide / 65536;
    (base as i128 + moved) as i64
}

} // verus!
