//! Identities of the dot, cross and triple products of integer vectors.

use vstd::prelude::*;
use crate::vector::Triple;

verus! {

/// `(x + y + z) k = x k + y k + z k`.
pub proof fn lemma_spread(x: int, y: int, z: int, k: int)
    ensures
        (x + y + z) * k == x * k + y * k + z * k,
{
    assert((x + y + z) * k == x * k + y * k + z * k) by (nonlinear_arith);
}

/// `(a c) s - (t c) b = c (a s - t b)`.
pub proof fn lemma_gather(c: int, a: int, s: int, t: int, b: int)
    ensures
        (a * c) * s - (t * c) * b == c * (a * s - t * b),
{
    assert((a * c) * s == c * (a * s)) by (nonlinear_arith);
    assert((t * c) * b == c * (t * b)) by (nonlinear_arith);
    assert(c * (a * s) - c * (t * b) == c * (a * s - t * b)) by (nonlinear_arith);
}

/// `p (q r - s t) = q (p r) - s (p t)`.
pub proof fn lemma_unfold(p: int, q: int, r: int, s: int, t: int)
    ensures
        p * (q * r - s * t) == q * (p * r) - s * (p * t),
{
    assert(p * (q * r - s * t) == p * (q * r) - p * (s * t)) by (nonlinear_arith);
    assert(p * (q * r) == q * (p * r)) by (nonlinear_arith);
    assert(p * (s * t) == s * (p * t)) by (nonlinear_arith);
}

/// `p (q r - s t) = p (q r) - p (s t)`.
pub proof fn lemma_part(p: int, q: int, r: int, s: int, t: int)
    ensures
        p * (q * r - s * t) == p * (q * r) - p * (s * t),
{
    assert(p * (q * r - s * t) == p * (q * r) - p * (s * t)) by (nonlinear_arith);
}

/// `(-a) . w = -(a . w)`.
pub proof fn lemma_dot_negated(a: Triple, w: Triple)
    ensures
        a.negated().dot(w) == -a.dot(w),
{
    assert((-a.x) * w.x == -(a.x * w.x)) by (nonlinear_arith);
    assert((-a.y) * w.y == -(a.y * w.y)) by (nonlinear_arith);
    assert((-a.z) * w.z == -(a.z * w.z)) by (nonlinear_arith);
}

/// `(a + k b) . w = a . w + k (b . w)`.
pub proof fn lemma_dot_sum(a: Triple, b: Triple, k: int, w: Triple)
    ensures
        a.plus(b.scale(k)).dot(w) == a.dot(w) + k * b.dot(w),
{
    assert((a.x + k * b.x) * w.x == a.x * w.x + k * (b.x * w.x)) by (nonlinear_arith);
    assert((a.y + k * b.y) * w.y == a.y * w.y + k * (b.y * w.y)) by (nonlinear_arith);
    assert((a.z + k * b.z) * w.z == a.z * w.z + k * (b.z * w.z)) by (nonlinear_arith);
    let (x, y, z) = (b.x * w.x, b.y * w.y, b.z * w.z);
    assert(k * (x + y + z) == k * x + k * y + k * z) by (nonlinear_arith);
}

/// Exchanging the first two vectors of a triple product `a . (b x c)`
/// changes its sign.
pub proof fn lemma_triple_swap(a: Triple, b: Triple, c: Triple)
    ensures
        a.dot(b.cross(c)) == -b.dot(a.cross(c)),
{
    lemma_unfold(a.x, b.y, c.z, b.z, c.y);
    lemma_unfold(a.y, b.z, c.x, b.x, c.z);
    lemma_unfold(a.z, b.x, c.y, b.y, c.x);
    lemma_part(b.x, a.y, c.z, a.z, c.y);
    lemma_part(b.y, a.z, c.x, a.x, c.z);
    lemma_part(b.z, a.x, c.y, a.y, c.x);
}

/// Exchanging the last two vectors of a triple product `a . (b x c)`
/// changes its sign.
pub proof fn lemma_triple_flip(a: Triple, b: Triple, c: Triple)
    ensures
        a.dot(b.cross(c)) == -a.dot(c.cross(b)),
{
    let l = b.cross(c);
    let r = c.cross(b);
    assert(l.x == -r.x && l.y == -r.y && l.z == -r.z) by (nonlinear_arith)
        requires
            l.x == b.y * c.z - b.z * c.y,
            l.y == b.z * c.x - b.x * c.z,
            l.z == b.x * c.y - b.y * c.x,
            r.x == c.y * b.z - c.z * b.y,
            r.y == c.z * b.x - c.x * b.z,
            r.z == c.x * b.y - c.y * b.x,
    ;
    assert(a.x * l.x == -(a.x * r.x)) by (nonlinear_arith)
        requires
            l.x == -r.x,
    ;
    assert(a.y * l.y == -(a.y * r.y)) by (nonlinear_arith)
        requires
            l.y == -r.y,
    ;
    assert(a.z * l.z == -(a.z * r.z)) by (nonlinear_arith)
        requires
            l.z == -r.z,
    ;
}

/// A triple product with a vector twice is zero.
pub proof fn lemma_triple_twice(d: Triple, e: Triple)
    ensures
        d.dot(d.cross(e)) == 0,
{
    lemma_triple_swap(d, d, e);
}

} // verus!
