//! Scaled-integer arithmetic shared by the whole pipeline.
//!
//! A real quantity `q` (radians, astronomical units, days) is carried as the
//! integer nearest `q * SCALE`, so products of two quantities must be divided
//! by `SCALE` again; that division truncates toward zero, as `scale_down`
//! states.  The integer square root underlies vector magnitudes.

use vstd::arithmetic::div_mod::{lemma_div_is_ordered, lemma_div_pos_is_pos};
use vstd::prelude::*;

verus! {

/// Fixed-point steps per unit: every quantity carries nine decimal places.
pub const SCALE: i64 = 1_000_000_000;

/// Division of `v` by a positive divisor `d`, truncated toward zero.  This is
/// the rounding every rescaling step of the pipeline uses.
pub open spec fn scale_down(v: int, d: int) -> int
    recommends
        d > 0,
{
    if v >= 0 {
        v / d
    } else {
        -((-v) / d)
    }
}

/// `r` is the floor of the square root of `n`.
pub open spec fn is_isqrt(n: int, r: int) -> bool {
    &&& 0 <= r
    &&& r * r <= n
    &&& n < (r + 1) * (r + 1)
}

/// Division truncated toward zero, as `scale_down` describes it.
pub fn div_trunc(v: i128, d: i128) -> (r: i128)
    requires
        0 < d,
        i128::MIN < v,
    ensures
        r == scale_down(v as int, d as int),
{
    if v >= 0 {
        let q = (v as u128) / (d as u128);
        q as i128
    } else {
        let m = -v;
        let q = (m as u128) / (d as u128);
        -(q as i128)
    }
}

/// Floor of the square root of `n`, found by bisection.
pub fn isqrt_u128(n: u128) -> (r: u128)
    ensures
        is_isqrt(n as int, r as int),
{
    let mut lo: u128 = 0;
    let mut hi: u128 = 0x1_0000_0000_0000_0000;
    assert((hi as int) * (hi as int) > n as int);
    while lo + 1 < hi
        invariant
            lo < hi,
            hi <= 0x1_0000_0000_0000_0000,
            (lo as int) * (lo as int) <= n as int,
            (n as int) < (hi as int) * (hi as int),
        decreases hi - lo,
    {
        let mid = lo + (hi - lo) / 2;
        assert((mid as int) * (mid as int) <= u128::MAX) by (nonlinear_arith)
            requires
                mid < 0x1_0000_0000_0000_0000u128;
        let sq = mid * mid;
        if sq <= n {
            lo = mid;
        } else {
            hi = mid;
        }
    }
    lo
}

/// A number has only one floor square root.
pub proof fn lemma_isqrt_unique(n: int, r1: int, r2: int)
    requires
        is_isqrt(n, r1),
        is_isqrt(n, r2),
    ensures
        r1 == r2,
{
    if r1 < r2 {
        assert(false) by (nonlinear_arith)
            requires
                0 <= r1,
                0 <= r2,
                r2 * r2 <= n,
                n < (r1 + 1) * (r1 + 1),
                r1 < r2;
    }
    if r2 < r1 {
        assert(false) by (nonlinear_arith)
            requires
                0 <= r1,
                0 <= r2,
                r1 * r1 <= n,
                n < (r2 + 1) * (r2 + 1),
                r2 < r1;
    }
}

/// The floor square root never decreases when its argument grows.
pub proof fn lemma_isqrt_monotonic(n1: int, r1: int, n2: int, r2: int)
    requires
        is_isqrt(n1, r1),
        is_isqrt(n2, r2),
        n1 <= n2,
    ensures
        r1 <= r2,
{
    if r2 < r1 {
        assert(false) by (nonlinear_arith)
            requires
                0 <= r1,
                0 <= r2,
                r1 * r1 <= n1,
                n2 < (r2 + 1) * (r2 + 1),
                n1 <= n2,
                r2 < r1;
    }
}

/// Truncated division keeps a symmetric bound: if `|v| <= m` then
/// `|scale_down(v, d)| <= m / d`.
pub proof fn lemma_scale_down_bound(v: int, d: int, m: int)
    requires
        0 < d,
        0 <= m,
        -m <= v <= m,
    ensures
        -(m / d) <= scale_down(v, d) <= m / d,
{
    if v >= 0 {
        lemma_div_is_ordered(v, m, d);
        lemma_div_pos_is_pos(v, d);
        lemma_div_pos_is_pos(m, d);
    } else {
        lemma_div_is_ordered(-v, m, d);
        lemma_div_pos_is_pos(-v, d);
    }
}

/// A product is bounded by the product of the factors' bounds.
pub proof fn lemma_mul_bound(a: int, b: int, ma: int, mb: int)
    by (nonlinear_arith)
    requires
        -ma <= a <= ma,
        -mb <= b <= mb,
    ensures
        -(ma * mb) <= a * b <= ma * mb,
{
}

/// Truncated division of a zero numerator is zero, whatever the divisor.
pub proof fn lemma_scale_down_zero(d: int)
    requires
        0 < d,
    ensures
        scale_down(0, d) == 0,
{
    vstd::arithmetic::div_mod::lemma_div_of0(d);
}

} // verus!
