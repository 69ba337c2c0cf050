//! Fixed-point scalars.
//!
//! Every scalar of this crate is an `i64` that counts steps of 1/65536:
//! the raw value `65536` stands for `1.0`. Sums and differences of raw
//! values are exact. Where a quotient or a square root has to be brought
//! back to the grid it is truncated toward zero, once, after the exact
//! value has been formed in wider integers.

use vstd::prelude::*;
use vstd::arithmetic::div_mod::lemma_div_basics;
use vstd::arithmetic::div_mod::lemma_div_by_multiple;
use vstd::arithmetic::div_mod::lemma_div_is_ordered;
use vstd::arithmetic::div_mod::lemma_div_pos_is_pos;
use vstd::arithmetic::div_mod::lemma_fundamental_div_mod;
use vstd::arithmetic::div_mod::lemma_mod_bound;

verus! {

/// The raw value that stands for `1.0`.
pub const ONE: i64 = 65536;

/// Largest magnitude of a coordinate, of a normal's component and of a
/// transform's entry that the geometry accepts: `16384.0`.
pub const COORD_LIMIT: i64 = 0x4000_0000;

/// Largest magnitude of a distance along a ray: `2^32` in real terms.
pub const DISTANCE_LIMIT: i64 = 0x1_0000_0000_0000;

/// Largest magnitude of a component of a vector that can be normalized.
pub const NORMALIZE_LIMIT: i64 = 0xffff_ffff_ffff;

/// A determinant at or below this magnitude counts as zero: a ray that
/// close to a triangle's plane is taken to be parallel to it. About
/// `0.0001`.
pub const EPSILON_BUMP: i64 = 7;

/// Magnitude of an integer.
pub open spec fn magnitude(a: int) -> int {
    if a < 0 {
        -a
    } else {
        a
    }
}

/// The quotient `n / d` rounded toward zero; `d` is not zero.
pub open spec fn trunc_div(n: int, d: int) -> int {
    if (n < 0) == (d < 0) {
        magnitude(n) / magnitude(d)
    } else {
        -(magnitude(n) / magnitude(d))
    }
}

/// The fixed-point product of two raw values: `a * b / 1.0`, rounded
/// toward zero.
pub open spec fn fixed_mul(a: int, b: int) -> int {
    trunc_div(a * b, ONE as int)
}

/// The fixed-point value of the fraction `n / d`, rounded toward zero.
pub open spec fn fixed_ratio(n: int, d: int) -> int {
    trunc_div(n * ONE, d)
}

/// `r` is the integer square root of `n`: the largest integer whose
/// square does not exceed `n`.
pub open spec fn is_sqrt_floor(r: int, n: int) -> bool {
    0 <= r && r * r <= n < (r + 1) * (r + 1)
}

/// The integer square root of `n`.
pub open spec fn sqrt_floor(n: int) -> int {
    choose|r: int| is_sqrt_floor(r, n)
}

/// An integer has at most one integer square root.
pub proof fn lemma_sqrt_floor_unique(r1: int, r2: int, n: int)
    requires
        is_sqrt_floor(r1, n),
        is_sqrt_floor(r2, n),
    ensures
        r1 == r2,
{
    assert(r1 == r2) by (nonlinear_arith)
        requires
            0 <= r1,
            0 <= r2,
            r1 * r1 <= n < (r1 + 1) * (r1 + 1),
            r2 * r2 <= n < (r2 + 1) * (r2 + 1),
    ;
}

/// Whoever holds an integer square root of `n` holds `sqrt_floor(n)`.
pub proof fn lemma_sqrt_floor_is(r: int, n: int)
    requires
        is_sqrt_floor(r, n),
    ensures
        sqrt_floor(n) == r,
{
    lemma_sqrt_floor_unique(sqrt_floor(n), r, n);
}

/// Every natural number has an integer square root, and `sqrt_floor`
/// is it.
pub proof fn lemma_sqrt_floor_exists(n: int)
    requires
        0 <= n,
    ensures
        is_sqrt_floor(sqrt_floor(n), n),
    decreases n,
{
    if n == 0 {
        assert(is_sqrt_floor(0, 0));
    } else {
        lemma_sqrt_floor_exists(n - 1);
        let r = sqrt_floor(n - 1);
        assert((r + 1) * (r + 1) < (r + 2) * (r + 2)) by (nonlinear_arith)
            requires
                0 <= r,
        ;
        if (r + 1) * (r + 1) <= n {
            assert(is_sqrt_floor(r + 1, n));
        } else {
            assert(is_sqrt_floor(r, n));
        }
    }
}

/// The integer square root grows with its argument.
pub proof fn lemma_sqrt_floor_ordered(r1: int, n1: int, r2: int, n2: int)
    requires
        is_sqrt_floor(r1, n1),
        is_sqrt_floor(r2, n2),
        n1 <= n2,
    ensures
        r1 <= r2,
{
    assert(r1 <= r2) by (nonlinear_arith)
        requires
            0 <= r1,
            0 <= r2,
            r1 * r1 <= n1,
            n2 < (r2 + 1) * (r2 + 1),
            n1 <= n2,
    ;
}

/// Integer square root of a 128-bit number, by bisection.
pub fn isqrt(n: u128) -> (r: u128)
    ensures
        is_sqrt_floor(r as int, n as int),
        r == sqrt_floor(n as int),
        r < 0x1_0000_0000_0000_0000,
{
    let mut lo: u128 = 0;
    let mut hi: u128 = 0x1_0000_0000_0000_0000;
    assert(lo * lo <= n);
    assert(n < hi * hi) by (nonlinear_arith)
        requires
            hi == 0x1_0000_0000_0000_0000,
            n <= u128::MAX,
    ;
    while hi - lo > 1
        invariant
            lo < hi <= 0x1_0000_0000_0000_0000,
            lo * lo <= n < hi * hi,
        decreases hi - lo,
    {
        let mid: u128 = lo + (hi - lo) / 2;
        assert(mid * mid < 0x1_0000_0000_0000_0000_0000_0000_0000_0000) by (nonlinear_arith)
            requires
                mid < 0x1_0000_0000_0000_0000,
        ;
        if mid * mid <= n {
            lo = mid;
        } else {
            hi = mid;
        }
    }
    proof {
        assert(hi == lo + 1);
        lemma_sqrt_floor_is(lo as int, n as int);
    }
    lo
}

/// A product is bounded by the product of the bounds of its factors.
pub proof fn lemma_product_bound(a: int, b: int, la: int, lb: int)
    requires
        -la <= a <= la,
        -lb <= b <= lb,
    ensures
        -(la * lb) <= a * b <= la * lb,
{
    assert(-(la * lb) <= a * b <= la * lb) by (nonlinear_arith)
        requires
            -la <= a <= la,
            -lb <= b <= lb,
    ;
}

/// A quotient is bounded by what bounds its numerator in multiples of
/// the divisor.
pub proof fn lemma_quotient_bound(n: int, d: int, b: int)
    requires
        0 <= n <= b * d,
        0 < d,
    ensures
        0 <= n / d <= b,
{
    assert(0 <= b) by (nonlinear_arith)
        requires
            0 <= b * d,
            0 < d,
    ;
    lemma_div_pos_is_pos(n, d);
    lemma_div_is_ordered(n, b * d, d);
    lemma_div_by_multiple(b, d);
}

/// Rounding two quotients down before adding them never gives more than
/// rounding their sum.
pub proof fn lemma_quotient_sum(a: int, b: int, d: int)
    requires
        0 <= a,
        0 <= b,
        0 < d,
    ensures
        a / d + b / d <= (a + b) / d,
{
    lemma_fundamental_div_mod(a, d);
    lemma_fundamental_div_mod(b, d);
    let q = a / d + b / d;
    assert(d * q == d * (a / d) + d * (b / d)) by (nonlinear_arith)
        requires
            q == a / d + b / d,
    ;
    assert(q * d == d * q) by (nonlinear_arith);
    lemma_div_pos_is_pos(a, d);
    lemma_div_pos_is_pos(b, d);
    lemma_div_is_ordered(q * d, a + b, d);
    lemma_div_by_multiple(q, d);
}

/// A fraction keeps its value where numerator and denominator both
/// change sign.
pub proof fn lemma_ratio_negated(n: int, d: int)
    requires
        d != 0,
    ensures
        fixed_ratio(-n, -d) == fixed_ratio(n, d),
{
    assert((-n) * ONE == -(n * ONE)) by (nonlinear_arith);
    lemma_div_basics(magnitude(d));
}

/// A quotient of natural numbers is its fraction rounded down: the
/// fraction lies between the quotient and the next whole number.
pub proof fn lemma_quotient_brackets(n: int, d: int)
    requires
        0 <= n,
        0 < d,
    ensures
        (n / d) * d <= n < (n / d + 1) * d,
{
    lemma_fundamental_div_mod(n, d);
    lemma_mod_bound(n, d);
    let q = n / d;
    assert(q * d == d * q && (q + 1) * d == d * q + d) by (nonlinear_arith);
}

} // verus!
