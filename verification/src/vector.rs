//! Four-component vectors over fixed-point scalars, and the exact integer
//! vectors that specifications are stated over.

use vstd::prelude::*;
use vstd::arithmetic::div_mod::lemma_div_by_multiple;
use vstd::arithmetic::div_mod::lemma_div_is_ordered;
use vstd::arithmetic::div_mod::lemma_div_multiples_vanish_quotient;
use crate::fixed::is_sqrt_floor;
use crate::fixed::isqrt;
use crate::fixed::lemma_quotient_brackets;
use crate::fixed::lemma_sqrt_floor_exists;
use crate::fixed::lemma_sqrt_floor_ordered;
use crate::fixed::magnitude;
use crate::fixed::NORMALIZE_LIMIT;
use crate::fixed::ONE;
use crate::fixed::sqrt_floor;

verus! {

/// A point (`w` is `1.0`) or a direction (`w` is `0`) in homogeneous
/// coordinates. Each field is a raw fixed-point value.
#[derive(Clone, Copy, Debug, PartialEq, Eq, Structural)]
pub struct Vec4 {
    pub x: i64,
    pub y: i64,
    pub z: i64,
    pub w: i64,
}

/// The spatial part of a vector as unbounded integers, in raw units.
pub struct Triple {
    pub x: int,
    pub y: int,
    pub z: int,
}

impl Triple {
    pub open spec fn dot(self, other: Triple) -> int {
        self.x * other.x + self.y * other.y + self.z * other.z
    }

    pub open spec fn cross(self, other: Triple) -> Triple {
        Triple {
            x: self.y * other.z - self.z * other.y,
            y: self.z * other.x - self.x * other.z,
            z: self.x * other.y - self.y * other.x,
        }
    }

    pub open spec fn minus(self, other: Triple) -> Triple {
        Triple { x: self.x - other.x, y: self.y - other.y, z: self.z - other.z }
    }

    pub open spec fn plus(self, other: Triple) -> Triple {
        Triple { x: self.x + other.x, y: self.y + other.y, z: self.z + other.z }
    }

    pub open spec fn scale(self, k: int) -> Triple {
        Triple { x: k * self.x, y: k * self.y, z: k * self.z }
    }

    pub open spec fn negated(self) -> Triple {
        Triple { x: -self.x, y: -self.y, z: -self.z }
    }

    /// No component exceeds `limit` in magnitude.
    pub open spec fn within(self, limit: int) -> bool {
        &&& -limit <= self.x <= limit
        &&& -limit <= self.y <= limit
        &&& -limit <= self.z <= limit
    }

    pub open spec fn length_squared(self) -> int {
        self.dot(self)
    }

    /// The direction of unit length along `self` as a fixed-point
    /// vector, or the zero vector where `self` has no length. The
    /// result's `w` is zero.
    pub open spec fn unit(self) -> Vec4 {
        let k = self.length_squared();
        if k == 0 {
            Vec4 { x: 0, y: 0, z: 0, w: 0 }
        } else {
            Vec4 {
                x: unit_part(self.x, k) as i64,
                y: unit_part(self.y, k) as i64,
                z: unit_part(self.z, k) as i64,
                w: 0,
            }
        }
    }
}

/// One component of the unit vector along a vector whose squared length
/// is `k` and whose component is `c`: the exact value `c / sqrt(k)`,
/// rounded toward zero on the fixed-point grid.
pub open spec fn unit_part(c: int, k: int) -> int {
    if c < 0 {
        -sqrt_floor((ONE * c) * (ONE * c) / k)
    } else {
        sqrt_floor((ONE * c) * (ONE * c) / k)
    }
}

impl Vec4 {
    /// The spatial part, as exact integers.
    pub open spec fn exact(self) -> Triple {
        Triple { x: self.x as int, y: self.y as int, z: self.z as int }
    }

    /// No component, `w` included, exceeds `limit` in magnitude.
    pub open spec fn within(self, limit: int) -> bool {
        &&& self.exact().within(limit)
        &&& -limit <= self.w <= limit
    }

    /// Componentwise difference, `w` included.
    pub open spec fn minus_spec(self, other: Vec4) -> Vec4 {
        Vec4 {
            x: (self.x - other.x) as i64,
            y: (self.y - other.y) as i64,
            z: (self.z - other.z) as i64,
            w: (self.w - other.w) as i64,
        }
    }

    /// The direction of unit length along `self`: see `Triple::unit`.
    pub open spec fn normalized(self) -> Vec4 {
        self.exact().unit()
    }

    pub fn new(x: i64, y: i64, z: i64, w: i64) -> (v: Vec4)
        ensures
            v == (Vec4 { x, y, z, w }),
    {
        Vec4 { x, y, z, w }
    }

    /// Tells whether every component lies within `limit` of zero.
    pub fn is_within(&self, limit: i64) -> (r: bool)
        requires
            0 <= limit,
        ensures
            r == self.within(limit as int),
    {
        -limit <= self.x && self.x <= limit && -limit <= self.y && self.y <= limit && -limit
            <= self.z && self.z <= limit && -limit <= self.w && self.w <= limit
    }

    /// `self - other`, exactly.
    pub fn minus(&self, other: &Vec4) -> (r: Vec4)
        requires
            self.within(i64::MAX / 2),
            other.within(i64::MAX / 2),
        ensures
            r == self.minus_spec(*other),
            r.exact() == self.exact().minus(other.exact()),
            r.w == self.w - other.w,
    {
        Vec4 {
            x: self.x - other.x,
            y: self.y - other.y,
            z: self.z - other.z,
            w: self.w - other.w,
        }
    }
    /// The unit vector along `self`, each component rounded toward zero.
    pub fn normalize(&self) -> (r: Vec4)
        requires
            self.exact().within(NORMALIZE_LIMIT as int),
        ensures
            r == self.normalized(),
            r.within(ONE as int),
            r.w == 0,
    {
        let xx: u128 = square(self.x);
        let yy: u128 = square(self.y);
        let zz: u128 = square(self.z);
        let k: u128 = xx + yy + zz;
        if k == 0 {
            return Vec4 { x: 0, y: 0, z: 0, w: 0 };
        }
        let x = unit_component(self.x, k);
        let y = unit_component(self.y, k);
        let z = unit_component(self.z, k);
        Vec4 { x, y, z, w: 0 }
    }
}

/// The square of a value that can be normalized.
fn square(c: i64) -> (r: u128)
    requires
        -NORMALIZE_LIMIT <= c <= NORMALIZE_LIMIT,
    ensures
        r == c * c,
        r <= 0x1_0000_0000_0000_0000_0000_0000,
{
    let a: u128 = if c < 0 {
        (-c) as u128
    } else {
        c as u128
    };
    assert(a * a == c * c && a * a <= 0x1_0000_0000_0000_0000_0000_0000) by (nonlinear_arith)
        requires
            a == c || a == -c,
            0 <= a <= 0xffff_ffff_ffff,
    ;
    a * a
}

/// One component of a unit vector: `unit_part`, computed.
fn unit_component(c: i64, k: u128) -> (r: i64)
    requires
        -NORMALIZE_LIMIT <= c <= NORMALIZE_LIMIT,
        0 < k,
        c * c <= k,
    ensures
        r == unit_part(c as int, k as int),
        -ONE <= r <= ONE,
{
    let a: u128 = if c < 0 {
        (-c) as u128
    } else {
        c as u128
    };
    let s: u128 = a * 65536;
    assert(s * s < 0x1_0000_0000_0000_0000_0000_0000_0000_0000 && s * s == (ONE * c) * (ONE * c)
        && s * s <= (ONE * ONE) * k) by (nonlinear_arith)
        requires
            s == a * 65536,
            a == c || a == -c,
            0 <= a <= 0xffff_ffff_ffff,
            c * c <= k,
            ONE == 65536,
    ;
    let q: u128 = (s * s) / k;
    let root: u128 = isqrt(q);
    proof {
        lemma_div_is_ordered((s * s) as int, (ONE * ONE) * k, k as int);
        lemma_div_by_multiple(ONE * ONE, k as int);
        assert(is_sqrt_floor(ONE as int, ONE * ONE)) by (nonlinear_arith)
            requires
                ONE == 65536,
        ;
        lemma_sqrt_floor_ordered(root as int, q as int, ONE as int, ONE * ONE);
    }
    if c < 0 {
        -(root as i64)
    } else {
        root as i64
    }
}

/// `unit_part` is the exact component `c / sqrt(k)` of the unit vector,
/// times `ONE` and rounded toward zero: squared and multiplied out, the
/// exact value lies between the result and the next step away from zero.
/// The result has the sign of `c`.
pub proof fn lemma_unit_part_is_rounded(c: int, k: int)
    requires
        0 < k,
    ensures
        ({
            let r = magnitude(unit_part(c, k));
            r * r * k <= (ONE * c) * (ONE * c) < (r + 1) * (r + 1) * k
        }),
        c < 0 ==> unit_part(c, k) <= 0,
        c >= 0 ==> unit_part(c, k) >= 0,
{
    let whole = (ONE * c) * (ONE * c);
    assert(0 <= whole) by (nonlinear_arith)
        requires
            whole == (ONE * c) * (ONE * c),
    ;
    let q = whole / k;
    lemma_quotient_brackets(whole, k);
    vstd::arithmetic::div_mod::lemma_div_pos_is_pos(whole, k);
    lemma_sqrt_floor_exists(q);
    let r = sqrt_floor(q);
    assert(r * r * k <= q * k) by (nonlinear_arith)
        requires
            r * r <= q,
            0 < k,
    ;
    assert((q + 1) * k <= (r + 1) * (r + 1) * k) by (nonlinear_arith)
        requires
            q + 1 <= (r + 1) * (r + 1),
            0 < k,
    ;
}

/// Scaling a vector by a positive whole number leaves each component of
/// its unit vector unchanged.
pub proof fn lemma_unit_part_scale(a: int, k: int, c: int)
    requires
        0 < c,
        0 < k,
    ensures
        unit_part(c * a, c * c * k) == unit_part(a, k),
{
    let sq = (ONE * a) * (ONE * a);
    assert((ONE * (c * a)) * (ONE * (c * a)) == (c * c) * sq) by (nonlinear_arith)
        requires
            sq == (ONE * a) * (ONE * a),
    ;
    assert(0 <= sq && 0 < c * c && c * c * k == (c * c) * k) by (nonlinear_arith)
        requires
            sq == (ONE * a) * (ONE * a),
            0 < c,
    ;
    lemma_div_multiples_vanish_quotient(c * c, sq, k);
    assert((c * a < 0) == (a < 0)) by (nonlinear_arith)
        requires
            0 < c,
    ;
}

/// The unit vector does not depend on how long a vector is: a positive
/// whole multiple of a vector normalizes to the same direction.
pub proof fn lemma_unit_scale(v: Triple, c: int)
    requires
        0 < c,
    ensures
        v.scale(c).unit() == v.unit(),
{
    let k = v.length_squared();
    let (x, y, z) = (v.x, v.y, v.z);
    let cc = c * c;
    assert((c * x) * (c * x) == cc * (x * x)) by (nonlinear_arith)
        requires
            cc == c * c,
    ;
    assert((c * y) * (c * y) == cc * (y * y)) by (nonlinear_arith)
        requires
            cc == c * c,
    ;
    assert((c * z) * (c * z) == cc * (z * z)) by (nonlinear_arith)
        requires
            cc == c * c,
    ;
    assert(cc * (x * x) + cc * (y * y) + cc * (z * z) == cc * k) by (nonlinear_arith)
        requires
            k == x * x + y * y + z * z,
    ;
    assert(v.scale(c).length_squared() == c * c * k);
    assert(0 <= k && (k == 0 <==> c * c * k == 0)) by (nonlinear_arith)
        requires
            k == x * x + y * y + z * z,
            0 < c,
    ;
    if k != 0 {
        lemma_unit_part_scale(x, k, c);
        lemma_unit_part_scale(y, k, c);
        lemma_unit_part_scale(z, k, c);
    }
}

} // verus!
