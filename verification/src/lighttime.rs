//! Light-time correction implied by a finite distance.
//!
//! The delay light needs to cross a rectangular displacement `(x, y, z)` is
//! `k * sqrt(x*x + y*y + z*z)` with `k` the light-time per astronomical unit,
//! 0.0057755183 days.  Here the displacement comes in scaled units
//! (`fixed::SCALE` steps per astronomical unit), the result leaves in scaled
//! days, and the square root is the integer floor square root, so the whole
//! estimate is exact integer arithmetic.

use crate::fixed::{is_isqrt, isqrt_u128, lemma_isqrt_monotonic, lemma_isqrt_unique};
use vstd::arithmetic::div_mod::lemma_div_is_ordered;
use vstd::arithmetic::mul::lemma_mul_left_inequality;
use vstd::prelude::*;

verus! {

/// Light-time per astronomical unit, in units of `1 / LIGHT_TIME_DEN` days:
/// the constant 0.0057755183 written as a ratio of integers.
pub const LIGHT_TIME_NUM: u64 = 57_755_183;

/// Denominator of the light-time constant.  One scaled-distance step times
/// `LIGHT_TIME_NUM / LIGHT_TIME_DEN` is one scaled-day step.
pub const LIGHT_TIME_DEN: u64 = 10_000_000_000;

/// Squared euclidean length of a displacement vector.
pub open spec fn norm_squared(x: int, y: int, z: int) -> int {
    x * x + y * y + z * z
}

/// The light-time estimate belonging to a floor square root `d` of the
/// squared displacement length.
pub open spec fn light_time_of_norm(d: int) -> int {
    (LIGHT_TIME_NUM * d) / (LIGHT_TIME_DEN as int)
}

/// `r` is the light-time estimate of the displacement `(x, y, z)`.
pub open spec fn is_light_time(x: int, y: int, z: int, r: int) -> bool {
    exists|d: int| is_isqrt(norm_squared(x, y, z), d) && r == light_time_of_norm(d)
}

/// Magnitude of a signed value, as the unsigned exec type.
fn abs_u128(v: i64) -> (r: u128)
    ensures
        r == if v >= 0 { v as int } else { -(v as int) },
{
    if v >= 0 {
        v as u128
    } else {
        let w = -(v as i128);
        w as u128
    }
}

/// Light-time delay of the displacement `(x, y, z)`: the scaled form of
/// `0.0057755183 * sqrt(x*x + y*y + z*z)`.  Total: it accepts every
/// representable displacement, and a zero displacement takes no time.
pub fn light_time(x: i64, y: i64, z: i64) -> (r: i64)
    ensures
        is_light_time(x as int, y as int, z as int, r as int),
        r >= 0,
        x == 0 && y == 0 && z == 0 ==> r == 0,
{
    let ax = abs_u128(x);
    let ay = abs_u128(y);
    let az = abs_u128(z);
    assert(ax * ax <= 0x4000_0000_0000_0000_0000_0000_0000_0000u128) by (nonlinear_arith)
        requires
            ax <= 0x8000_0000_0000_0000u128;
    assert(ay * ay <= 0x4000_0000_0000_0000_0000_0000_0000_0000u128) by (nonlinear_arith)
        requires
            ay <= 0x8000_0000_0000_0000u128;
    assert(az * az <= 0x4000_0000_0000_0000_0000_0000_0000_0000u128) by (nonlinear_arith)
        requires
            az <= 0x8000_0000_0000_0000u128;
    let sq = ax * ax + ay * ay + az * az;
    assert(sq as int == norm_squared(x as int, y as int, z as int)) by (nonlinear_arith)
        requires
            ax as int == if x >= 0 { x as int } else { -(x as int) },
            ay as int == if y >= 0 { y as int } else { -(y as int) },
            az as int == if z >= 0 { z as int } else { -(z as int) },
            sq == ax * ax + ay * ay + az * az;
    let d = isqrt_u128(sq);
    assert(d < 0x1_0000_0000_0000_0000u128) by (nonlinear_arith)
        requires
            is_isqrt(sq as int, d as int),
            sq <= u128::MAX;
    assert(57_755_183 * (d as int) <= 57_755_183int * 0xFFFF_FFFF_FFFF_FFFFint)
        by (nonlinear_arith)
        requires
            d <= 0xFFFF_FFFF_FFFF_FFFFu128;
    let num = (LIGHT_TIME_NUM as u128) * d;
    let lt = num / (LIGHT_TIME_DEN as u128);
    proof {
        lemma_div_is_ordered(
            num as int,
            57_755_183int * 0xFFFF_FFFF_FFFF_FFFFint,
            LIGHT_TIME_DEN as int,
        );
        let dd = d as int;
        assert(is_isqrt(norm_squared(x as int, y as int, z as int), dd) && lt as int
            == light_time_of_norm(dd));
        if x == 0 && y == 0 && z == 0 {
            assert(norm_squared(x as int, y as int, z as int) == 0) by (nonlinear_arith)
                requires
                    x == 0i64,
                    y == 0i64,
                    z == 0i64;
            assert(is_isqrt(0, dd));
            lemma_isqrt_unique(0, dd, 0);
        }
    }
    lt as i64
}

/// The estimate is monotonic: a displacement no longer than another never
/// takes more light time.  Stated over the squared lengths, which order
/// exactly as the lengths themselves do.
pub proof fn lemma_light_time_monotonic(
    x1: int,
    y1: int,
    z1: int,
    r1: int,
    x2: int,
    y2: int,
    z2: int,
    r2: int,
)
    requires
        is_light_time(x1, y1, z1, r1),
        is_light_time(x2, y2, z2, r2),
        norm_squared(x1, y1, z1) <= norm_squared(x2, y2, z2),
    ensures
        r1 <= r2,
{
    let n1 = norm_squared(x1, y1, z1);
    let n2 = norm_squared(x2, y2, z2);
    let d1 = choose|d: int| is_isqrt(n1, d) && r1 == light_time_of_norm(d);
    let d2 = choose|d: int| is_isqrt(n2, d) && r2 == light_time_of_norm(d);
    lemma_isqrt_monotonic(n1, d1, n2, d2);
    lemma_mul_left_inequality(LIGHT_TIME_NUM as int, d1, d2);
    lemma_div_is_ordered(LIGHT_TIME_NUM * d1, LIGHT_TIME_NUM * d2, LIGHT_TIME_DEN as int);
}

} // verus!
