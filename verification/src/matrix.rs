//! Four-by-four transforms, and how a chain of them carries a surface
//! normal out of an object's own space.

use vstd::prelude::*;
use crate::fixed::COORD_LIMIT;
use crate::fixed::lemma_product_bound;
use crate::fixed::ONE;
use crate::vector::Triple;
use crate::vector::Vec4;

verus! {

/// A transform, row by row. Each entry is a raw fixed-point value.
#[derive(Clone, Copy, Debug, PartialEq, Eq, Structural)]
pub struct Matrix4x4 {
    pub r0: Vec4,
    pub r1: Vec4,
    pub r2: Vec4,
    pub r3: Vec4,
}

impl Matrix4x4 {
    /// No entry exceeds `limit` in magnitude.
    pub open spec fn within(self, limit: int) -> bool {
        &&& self.r0.within(limit)
        &&& self.r1.within(limit)
        &&& self.r2.within(limit)
        &&& self.r3.within(limit)
    }

    /// The transform that changes nothing.
    pub open spec fn identity_spec() -> Matrix4x4 {
        Matrix4x4 {
            r0: Vec4 { x: ONE, y: 0, z: 0, w: 0 },
            r1: Vec4 { x: 0, y: ONE, z: 0, w: 0 },
            r2: Vec4 { x: 0, y: 0, z: ONE, w: 0 },
            r3: Vec4 { x: 0, y: 0, z: 0, w: ONE },
        }
    }

    /// The transpose of `self` applied to the direction `n`, exactly and
    /// unscaled: the sum of products of raw values. The homogeneous
    /// component of `n` takes no part, and the result has none.
    pub open spec fn transposed_apply(self, n: Vec4) -> Triple {
        Triple {
            x: self.r0.x * n.x + self.r1.x * n.y + self.r2.x * n.z,
            y: self.r0.y * n.x + self.r1.y * n.y + self.r2.y * n.z,
            z: self.r0.z * n.x + self.r1.z * n.y + self.r2.z * n.z,
        }
    }

    /// Where a normal `n` points once it has left the space of a group
    /// whose inverse transform is `self`: the transpose of the inverse
    /// applied to `n`, brought back to unit length.
    pub open spec fn carry_normal(self, n: Vec4) -> Vec4 {
        self.transposed_apply(n).unit()
    }

    pub fn identity() -> (m: Matrix4x4)
        ensures
            m == Matrix4x4::identity_spec(),
    {
        Matrix4x4 {
            r0: Vec4 { x: ONE, y: 0, z: 0, w: 0 },
            r1: Vec4 { x: 0, y: ONE, z: 0, w: 0 },
            r2: Vec4 { x: 0, y: 0, z: ONE, w: 0 },
            r3: Vec4 { x: 0, y: 0, z: 0, w: ONE },
        }
    }

    /// Tells whether every entry lies within `limit` of zero.
    pub fn is_within(&self, limit: i64) -> (r: bool)
        requires
            0 <= limit,
        ensures
            r == self.within(limit as int),
    {
        self.r0.is_within(limit) && self.r1.is_within(limit) && self.r2.is_within(limit)
            && self.r3.is_within(limit)
    }

    /// Carries the unit normal `n` through the inverse transform `self`.
    pub fn transform_normal(&self, n: &Vec4) -> (r: Vec4)
        requires
            self.within(COORD_LIMIT as int),
            n.within(ONE as int),
        ensures
            r == self.carry_normal(*n),
            r.within(ONE as int),
            r.w == 0,
    {
        let x = column_sum(self.r0.x, self.r1.x, self.r2.x, n);
        let y = column_sum(self.r0.y, self.r1.y, self.r2.y, n);
        let z = column_sum(self.r0.z, self.r1.z, self.r2.z, n);
        let moved = Vec4 { x, y, z, w: 0 };
        moved.normalize()
    }
}

/// One component of a transposed product: a column of the transform
/// against the spatial part of `n`.
fn column_sum(a: i64, b: i64, c: i64, n: &Vec4) -> (r: i64)
    requires
        -COORD_LIMIT <= a <= COORD_LIMIT,
        -COORD_LIMIT <= b <= COORD_LIMIT,
        -COORD_LIMIT <= c <= COORD_LIMIT,
        n.within(ONE as int),
    ensures
        r == a * n.x + b * n.y + c * n.z,
        -3 * (COORD_LIMIT * ONE) <= r <= 3 * (COORD_LIMIT * ONE),
{
    proof {
        lemma_product_bound(a as int, n.x as int, COORD_LIMIT as int, ONE as int);
        lemma_product_bound(b as int, n.y as int, COORD_LIMIT as int, ONE as int);
        lemma_product_bound(c as int, n.z as int, COORD_LIMIT as int, ONE as int);
    }
    a * n.x + b * n.y + c * n.z
}

/// A unit normal of an object carried out through the object's
/// ancestors. `chain` holds the inverse transform of each enclosing
/// group, the innermost group first; the normal passes through them in
/// that order and is brought back to unit length after each.
pub open spec fn normal_to_world_spec(chain: Seq<Matrix4x4>, normal: Vec4) -> Vec4
    decreases chain.len(),
{
    if chain.len() == 0 {
        normal
    } else {
        chain.last().carry_normal(normal_to_world_spec(chain.drop_last(), normal))
    }
}

/// Every transform of the chain lies within the coordinate range.
pub open spec fn chain_within(chain: Seq<Matrix4x4>) -> bool {
    forall|i: int| 0 <= i < chain.len() ==> (#[trigger] chain[i]).within(COORD_LIMIT as int)
}

/// Carries a unit normal out through the ancestors of an object.
pub fn normal_to_world(chain: &Vec<Matrix4x4>, normal: &Vec4) -> (r: Vec4)
    requires
        chain_within(chain@),
        normal.within(ONE as int),
    ensures
        r == normal_to_world_spec(chain@, *normal),
        r.within(ONE as int),
{
    let mut n: Vec4 = *normal;
    let mut i: usize = 0;
    while i < chain.len()
        invariant
            i <= chain.len(),
            chain_within(chain@),
            n.within(ONE as int),
            n == normal_to_world_spec(chain@.take(i as int), *normal),
        decreases chain.len() - i,
    {
        proof {
            assert(chain@.take(i + 1).drop_last() == chain@.take(i as int));
        }
        n = chain[i].transform_normal(&n);
        i = i + 1;
    }
    proof {
        assert(chain@.take(i as int) == chain@);
    }
    n
}

} // verus!
