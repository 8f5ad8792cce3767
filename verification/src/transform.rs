//! Frame transforms: geocentric displacement, latitude slope, and the
//! rectangular position of a body given by orbital elements.
//!
//! The geocentric transform subtracts two rectangular heliocentric positions
//! and reads a direction and a light time off the displacement; a position of
//! a body referred to itself is the zero displacement, which is the documented
//! degenerate case.  The orbital-element transforms take the sines and
//! cosines of the elements as scaled values and carry out the vector algebra
//! exactly; the Gauss method's direction-cosine magnitudes signal an
//! invalid-orbit error when every direction cosine vanishes, rather than
//! leaving the orbital plane silently undefined.

use crate::fixed::{
    div_trunc, is_isqrt, isqrt_u128, lemma_isqrt_unique, lemma_mul_bound, lemma_scale_down_bound,
    lemma_scale_down_zero, scale_down, SCALE,
};
use crate::lighttime::{is_light_time, norm_squared};
use crate::Error;
use vstd::prelude::*;

verus! {

/// Largest admissible magnitude of a radius vector (scaled astronomical
/// units) handed to the element transforms.
pub const RADIUS_MAX: i64 = 1_125_899_906_842_624;

/// Largest admissible magnitude of a rectangular coordinate handed to the
/// componentwise sum and difference.
pub const COORD_MAX: i64 = 4_611_686_018_427_387_903;

/// Largest admissible magnitude of a direction cosine handed to the Gauss
/// magnitudes: each is a short sum of products of sines and cosines.
pub const COSINE_SUM_MAX: i64 = 4_000_000_000;

/// Largest admissible magnitude of the angle `A + w + v` (scaled radians) of
/// one Gauss axis.
pub const ANGLE_SUM_MAX: i64 = 16_000_000_000;

/// Fixed-point product of two scaled values: `a * b / SCALE`, truncated
/// toward zero.  `m` bounds the raw product, so the result fits.
fn mul_scaled(a: i64, b: i64, Ghost(m): Ghost<int>) -> (r: i64)
    requires
        0 <= m <= 9_223_372_036_854_775_807_000_000_000,
        -m <= (a as int) * (b as int) <= m,
    ensures
        r == scale_down((a as int) * (b as int), SCALE as int),
        -(m / (SCALE as int)) <= r <= m / (SCALE as int),
{
    proof {
        lemma_mul_bound(a as int, b as int, 9_223_372_036_854_775_808, 9_223_372_036_854_775_808);
        lemma_scale_down_bound((a as int) * (b as int), SCALE as int, m);
    }
    let p = (a as i128) * (b as i128);
    let q = div_trunc(p, 1_000_000_000);
    q as i64
}

/// Componentwise difference of two rectangular positions: the displacement
/// from the reference body at `(x0, y0, z0)` to the target at `(x, y, z)`.
pub fn rectangular_offset(x: i64, y: i64, z: i64, x0: i64, y0: i64, z0: i64) -> (d: (i64, i64, i64))
    requires
        -COORD_MAX <= x <= COORD_MAX,
        -COORD_MAX <= y <= COORD_MAX,
        -COORD_MAX <= z <= COORD_MAX,
        -COORD_MAX <= x0 <= COORD_MAX,
        -COORD_MAX <= y0 <= COORD_MAX,
        -COORD_MAX <= z0 <= COORD_MAX,
    ensures
        d.0 == x - x0,
        d.1 == y - y0,
        d.2 == z - z0,
{
    (x - x0, y - y0, z - z0)
}

/// Componentwise sum of two rectangular positions: an orbit-frame position
/// translated by the Sun's apparent rectangular position.
pub fn rectangular_sum(x: i64, y: i64, z: i64, x0: i64, y0: i64, z0: i64) -> (s: (i64, i64, i64))
    requires
        -COORD_MAX <= x <= COORD_MAX,
        -COORD_MAX <= y <= COORD_MAX,
        -COORD_MAX <= z <= COORD_MAX,
        -COORD_MAX <= x0 <= COORD_MAX,
        -COORD_MAX <= y0 <= COORD_MAX,
        -COORD_MAX <= z0 <= COORD_MAX,
    ensures
        s.0 == x + x0,
        s.1 == y + y0,
        s.2 == z + z0,
{
    (x + x0, y + y0, z + z0)
}

/// Law: a zero displacement — a body referred to its own position — takes no
/// light time.  Its direction is the documented degenerate case, which
/// `latitude_slope` reports as `None`.
pub proof fn lemma_zero_offset_no_light_time(lt: int)
    requires
        is_light_time(0, 0, 0, lt),
    ensures
        lt == 0,
{
    let d = choose|d: int|
        is_isqrt(norm_squared(0, 0, 0), d) && lt == crate::lighttime::light_time_of_norm(d);
    assert(norm_squared(0, 0, 0) == 0) by (nonlinear_arith);
    lemma_isqrt_unique(0, d, 0);
}

/// `s` is the latitude slope of the displacement: `dz * SCALE` divided by the
/// floor length of the projection onto the reference plane.
pub open spec fn is_latitude_slope(dx: int, dy: int, dz: int, s: int) -> bool {
    exists|d: int|
        #[trigger] is_isqrt(dx * dx + dy * dy, d) && d > 0 && s == scale_down(
            dz * (SCALE as int),
            d,
        )
}

/// Latitude of a displacement as a tangent-domain slope: `dz` over the length
/// of the projection of the displacement onto the reference plane, scaled.
/// The caller still has to take the arc tangent to obtain an angle.  A
/// displacement with no projection — the degenerate geocentric case — has no
/// direction and yields `None`.
pub fn latitude_slope(dx: i64, dy: i64, dz: i64) -> (r: Option<i128>)
    ensures
        (r is None) <==> (dx == 0 && dy == 0),
        r matches Some(s) ==> is_latitude_slope(dx as int, dy as int, dz as int, s as int),
        dz == 0 ==> (r matches Some(s) ==> s == 0),
{
    if dx == 0 && dy == 0 {
        return None;
    }
    let ax: u128 = if dx >= 0 {
        dx as u128
    } else {
        (-(dx as i128)) as u128
    };
    let ay: u128 = if dy >= 0 {
        dy as u128
    } else {
        (-(dy as i128)) as u128
    };
    assert(ax * ax <= 0x4000_0000_0000_0000_0000_0000_0000_0000u128) by (nonlinear_arith)
        requires
            ax <= 0x8000_0000_0000_0000u128;
    assert(ay * ay <= 0x4000_0000_0000_0000_0000_0000_0000_0000u128) by (nonlinear_arith)
        requires
            ay <= 0x8000_0000_0000_0000u128;
    let n = ax * ax + ay * ay;
    assert(n as int == (dx as int) * (dx as int) + (dy as int) * (dy as int)) by (nonlinear_arith)
        requires
            ax as int == if dx >= 0 { dx as int } else { -(dx as int) },
            ay as int == if dy >= 0 { dy as int } else { -(dy as int) },
            n == ax * ax + ay * ay;
    assert(n >= 1) by (nonlinear_arith)
        requires
            n == ax * ax + ay * ay,
            ax >= 1 || ay >= 1;
    let d = isqrt_u128(n);
    assert(d >= 1);
    assert(d < 0x1_0000_0000_0000_0000u128) by (nonlinear_arith)
        requires
            is_isqrt(n as int, d as int),
            n <= u128::MAX;
    proof {
        lemma_mul_bound(dz as int, SCALE as int, 9_223_372_036_854_775_808, SCALE as int);
        if dz == 0 {
            lemma_scale_down_zero(d as int);
        }
    }
    let num = (dz as i128) * (SCALE as i128);
    let s = div_trunc(num, d as i128);
    proof {
        let dd = d as int;
        assert(is_isqrt((dx as int) * (dx as int) + (dy as int) * (dy as int), dd) && dd > 0
            && s as int == scale_down((dz as int) * (SCALE as int), dd));
    }
    Some(s)
}

/// Rectangular heliocentric x coordinate from orbital elements: the scaled
/// form of `r * (cos σ cos u − sin σ sin u cos i)`.
pub open spec fn elements_x(cn: int, sn: int, cu: int, su: int, ci: int, r: int) -> int {
    scale_down(
        r * (scale_down(cn * cu, SCALE as int) - scale_down(
            scale_down(sn * su, SCALE as int) * ci,
            SCALE as int,
        )),
        SCALE as int,
    )
}

/// Rectangular heliocentric y coordinate from orbital elements: the scaled
/// form of `r * (sin σ cos u + cos σ sin u cos i)`.
pub open spec fn elements_y(cn: int, sn: int, cu: int, su: int, ci: int, r: int) -> int {
    scale_down(
        r * (scale_down(sn * cu, SCALE as int) + scale_down(
            scale_down(cn * su, SCALE as int) * ci,
            SCALE as int,
        )),
        SCALE as int,
    )
}

/// Rectangular heliocentric z coordinate from orbital elements: the scaled
/// form of `r * sin i sin u`.
pub open spec fn elements_z(si: int, su: int, r: int) -> int {
    scale_down(r * scale_down(si * su, SCALE as int), SCALE as int)
}

/// Law: zero inclination keeps the body in the reference plane — the
/// rectangular z coordinate vanishes for every node, argument and radius, and
/// with it the latitude.
pub proof fn lemma_planar_orbit_in_plane(su: int, r: int)
    ensures
        elements_z(0, su, r) == 0,
{
    lemma_mul_bound(0, su, 0, if su >= 0 {
        su
    } else {
        -su
    });
    lemma_scale_down_zero(SCALE as int);
    lemma_scale_down_zero(SCALE as int);
}

/// Rectangular heliocentric position of a body from its orbital elements:
/// node σ, inclination i and argument `u = w + v` enter as scaled sines and
/// cosines, the radius as scaled astronomical units.  Total for every
/// admissible input; with zero inclination the z coordinate vanishes.
pub fn orbital_plane_position(
    cos_node: i64,
    sin_node: i64,
    cos_incl: i64,
    sin_incl: i64,
    cos_arg: i64,
    sin_arg: i64,
    radius: i64,
) -> (p: (i64, i64, i64))
    requires
        -SCALE <= cos_node <= SCALE,
        -SCALE <= sin_node <= SCALE,
        -SCALE <= cos_incl <= SCALE,
        -SCALE <= sin_incl <= SCALE,
        -SCALE <= cos_arg <= SCALE,
        -SCALE <= sin_arg <= SCALE,
        -RADIUS_MAX <= radius <= RADIUS_MAX,
    ensures
        p.0 == elements_x(
            cos_node as int,
            sin_node as int,
            cos_arg as int,
            sin_arg as int,
            cos_incl as int,
            radius as int,
        ),
        p.1 == elements_y(
            cos_node as int,
            sin_node as int,
            cos_arg as int,
            sin_arg as int,
            cos_incl as int,
            radius as int,
        ),
        p.2 == elements_z(sin_incl as int, sin_arg as int, radius as int),
        sin_incl == 0 ==> p.2 == 0,
{
    proof {
        lemma_mul_bound(cos_node as int, cos_arg as int, SCALE as int, SCALE as int);
        lemma_mul_bound(sin_node as int, sin_arg as int, SCALE as int, SCALE as int);
        lemma_mul_bound(sin_node as int, cos_arg as int, SCALE as int, SCALE as int);
        lemma_mul_bound(cos_node as int, sin_arg as int, SCALE as int, SCALE as int);
        lemma_mul_bound(sin_incl as int, sin_arg as int, SCALE as int, SCALE as int);
    }
    let cn_cu = mul_scaled(cos_node, cos_arg, Ghost(1_000_000_000_000_000_000int));
    let sn_su = mul_scaled(sin_node, sin_arg, Ghost(1_000_000_000_000_000_000int));
    let sn_cu = mul_scaled(sin_node, cos_arg, Ghost(1_000_000_000_000_000_000int));
    let cn_su = mul_scaled(cos_node, sin_arg, Ghost(1_000_000_000_000_000_000int));
    let si_su = mul_scaled(sin_incl, sin_arg, Ghost(1_000_000_000_000_000_000int));
    proof {
        lemma_mul_bound(sn_su as int, cos_incl as int, SCALE as int, SCALE as int);
        lemma_mul_bound(cn_su as int, cos_incl as int, SCALE as int, SCALE as int);
    }
    let sn_su_ci = mul_scaled(sn_su, cos_incl, Ghost(1_000_000_000_000_000_000int));
    let cn_su_ci = mul_scaled(cn_su, cos_incl, Ghost(1_000_000_000_000_000_000int));
    let x_inner = cn_cu - sn_su_ci;
    let y_inner = sn_cu + cn_su_ci;
    proof {
        lemma_mul_bound(radius as int, x_inner as int, RADIUS_MAX as int, 2_000_000_000);
        lemma_mul_bound(radius as int, y_inner as int, RADIUS_MAX as int, 2_000_000_000);
        lemma_mul_bound(radius as int, si_su as int, RADIUS_MAX as int, SCALE as int);
        if sin_incl == 0 {
            lemma_mul_bound(sin_incl as int, sin_arg as int, 0, SCALE as int);
            lemma_scale_down_zero(SCALE as int);
        }
    }
    let x = mul_scaled(radius, x_inner, Ghost(2_251_799_813_685_248_000_000_000int));
    let y = mul_scaled(radius, y_inner, Ghost(2_251_799_813_685_248_000_000_000int));
    let z = mul_scaled(radius, si_su, Ghost(1_125_899_906_842_624_000_000_000int));
    proof {
        if sin_incl == 0 {
            assert((radius as int) * (si_su as int) == 0) by (nonlinear_arith)
                requires
                    si_su == 0i64;
            lemma_scale_down_zero(SCALE as int);
        }
    }
    (x, y, z)
}

/// Rectangular x from spherical ecliptic coordinates: the scaled form of
/// `R cos B cos L`.
pub open spec fn spherical_x(cl: int, cb: int, r: int) -> int {
    scale_down(r * scale_down(cb * cl, SCALE as int), SCALE as int)
}

/// Rectangular y from spherical ecliptic coordinates: the scaled form of
/// `R cos B sin L`.
pub open spec fn spherical_y(sl: int, cb: int, r: int) -> int {
    scale_down(r * scale_down(cb * sl, SCALE as int), SCALE as int)
}

/// Rectangular z from spherical ecliptic coordinates: the scaled form of
/// `R sin B`.
pub open spec fn spherical_z(sb: int, r: int) -> int {
    scale_down(r * sb, SCALE as int)
}

/// Rectangular heliocentric position from spherical ecliptic coordinates:
/// longitude L and latitude B enter as scaled sines and cosines, the radius
/// as scaled astronomical units: `x = R cos B cos L`, `y = R cos B sin L`,
/// `z = R sin B`.  The result stays within the componentwise offset's range.
pub fn spherical_to_rectangular(
    cos_lon: i64,
    sin_lon: i64,
    cos_lat: i64,
    sin_lat: i64,
    radius: i64,
) -> (p: (i64, i64, i64))
    requires
        -SCALE <= cos_lon <= SCALE,
        -SCALE <= sin_lon <= SCALE,
        -SCALE <= cos_lat <= SCALE,
        -SCALE <= sin_lat <= SCALE,
        -RADIUS_MAX <= radius <= RADIUS_MAX,
    ensures
        p.0 == spherical_x(cos_lon as int, cos_lat as int, radius as int),
        p.1 == spherical_y(sin_lon as int, cos_lat as int, radius as int),
        p.2 == spherical_z(sin_lat as int, radius as int),
        -RADIUS_MAX <= p.0 <= RADIUS_MAX,
        -RADIUS_MAX <= p.1 <= RADIUS_MAX,
        -RADIUS_MAX <= p.2 <= RADIUS_MAX,
{
    proof {
        lemma_mul_bound(cos_lat as int, cos_lon as int, SCALE as int, SCALE as int);
        lemma_mul_bound(cos_lat as int, sin_lon as int, SCALE as int, SCALE as int);
    }
    let cb_cl = mul_scaled(cos_lat, cos_lon, Ghost(1_000_000_000_000_000_000int));
    let cb_sl = mul_scaled(cos_lat, sin_lon, Ghost(1_000_000_000_000_000_000int));
    proof {
        lemma_mul_bound(radius as int, cb_cl as int, RADIUS_MAX as int, SCALE as int);
        lemma_mul_bound(radius as int, cb_sl as int, RADIUS_MAX as int, SCALE as int);
        lemma_mul_bound(radius as int, sin_lat as int, RADIUS_MAX as int, SCALE as int);
    }
    let x = mul_scaled(radius, cb_cl, Ghost(1_125_899_906_842_624_000_000_000int));
    let y = mul_scaled(radius, cb_sl, Ghost(1_125_899_906_842_624_000_000_000int));
    let z = mul_scaled(radius, sin_lat, Ghost(1_125_899_906_842_624_000_000_000int));
    (x, y, z)
}

/// Everything of the geocentric ecliptic transform that precedes the final
/// arc tangents: the displacement between the two rectangular positions, the
/// latitude slope of that displacement (`None` in the degenerate case of a
/// zero projection, a body referred to its own position among them), and the
/// light-time effect.  Single-pass: no refinement over the retarded position,
/// by design.
pub fn geocentric_ecliptic_parts(
    x: i64,
    y: i64,
    z: i64,
    x0: i64,
    y0: i64,
    z0: i64,
) -> (r: ((i64, i64, i64), Option<i128>, i64))
    requires
        -COORD_MAX <= x <= COORD_MAX,
        -COORD_MAX <= y <= COORD_MAX,
        -COORD_MAX <= z <= COORD_MAX,
        -COORD_MAX <= x0 <= COORD_MAX,
        -COORD_MAX <= y0 <= COORD_MAX,
        -COORD_MAX <= z0 <= COORD_MAX,
    ensures
        r.0.0 == x - x0 && r.0.1 == y - y0 && r.0.2 == z - z0,
        (r.1 is None) <==> (x == x0 && y == y0),
        r.1 matches Some(s) ==> is_latitude_slope(x - x0, y - y0, z - z0, s as int),
        is_light_time(x - x0, y - y0, z - z0, r.2 as int),
        r.2 >= 0,
        x == x0 && y == y0 && z == z0 ==> r.2 == 0,
{
    let d = rectangular_offset(x, y, z, x0, y0, z0);
    let slope = latitude_slope(d.0, d.1, d.2);
    let lt = crate::lighttime::light_time(d.0, d.1, d.2);
    (d, slope, lt)
}

/// `m` is the floor magnitude `sqrt(f*f + p*p)` of one pair of direction
/// cosines.
pub open spec fn is_axis_magnitude(f: int, p: int, m: int) -> bool {
    is_isqrt(f * f + p * p, m)
}

/// Floor magnitude of one direction-cosine pair.
fn pair_magnitude(a: i64, b: i64) -> (m: i64)
    requires
        -COSINE_SUM_MAX <= a <= COSINE_SUM_MAX,
        -COSINE_SUM_MAX <= b <= COSINE_SUM_MAX,
    ensures
        is_axis_magnitude(a as int, b as int, m as int),
        0 <= m <= 6_000_000_000,
{
    let aa: u128 = if a >= 0 {
        a as u128
    } else {
        (-(a as i128)) as u128
    };
    let ab: u128 = if b >= 0 {
        b as u128
    } else {
        (-(b as i128)) as u128
    };
    assert(aa * aa <= 16_000_000_000_000_000_000u128) by (nonlinear_arith)
        requires
            aa <= 4_000_000_000u128;
    assert(ab * ab <= 16_000_000_000_000_000_000u128) by (nonlinear_arith)
        requires
            ab <= 4_000_000_000u128;
    let n = aa * aa + ab * ab;
    assert(n as int == (a as int) * (a as int) + (b as int) * (b as int)) by (nonlinear_arith)
        requires
            aa as int == if a >= 0 { a as int } else { -(a as int) },
            ab as int == if b >= 0 { b as int } else { -(b as int) },
            n == aa * aa + ab * ab;
    let m = isqrt_u128(n);
    assert(m <= 6_000_000_000u128) by (nonlinear_arith)
        requires
            is_isqrt(n as int, m as int),
            n <= 32_000_000_000_000_000_000u128;
    m as i64
}

/// Gauss direction cosine `G`: the scaled form of `sin σ cos ε`.
pub open spec fn gauss_g(sn: int, ce: int) -> int {
    scale_down(sn * ce, SCALE as int)
}

/// Gauss direction cosine `H`: the scaled form of `sin σ sin ε`.
pub open spec fn gauss_h(sn: int, se: int) -> int {
    scale_down(sn * se, SCALE as int)
}

/// Gauss direction cosine `P`: the scaled form of `-sin σ cos i`.
pub open spec fn gauss_p(sn: int, ci: int) -> int {
    -scale_down(sn * ci, SCALE as int)
}

/// Gauss direction cosine `Q`: the scaled form of
/// `cos σ cos i cos ε - sin i sin ε`.
pub open spec fn gauss_q(cn: int, ci: int, ce: int, si: int, se: int) -> int {
    scale_down(scale_down(cn * ci, SCALE as int) * ce, SCALE as int) - scale_down(
        si * se,
        SCALE as int,
    )
}

/// Gauss direction cosine `R`: the scaled form of
/// `cos σ cos i sin ε + sin i cos ε`.
pub open spec fn gauss_r(cn: int, ci: int, se: int, si: int, ce: int) -> int {
    scale_down(scale_down(cn * ci, SCALE as int) * se, SCALE as int) + scale_down(
        si * ce,
        SCALE as int,
    )
}

/// The six Gauss direction cosines (F, G, H, P, Q, R) that encode the
/// orientation of the orbital plane in the equatorial frame: node σ,
/// inclination i and obliquity ε enter as scaled sines and cosines; `F` is
/// `cos σ` itself.  Each result stays within the range the axis magnitudes
/// admit.
pub fn gauss_direction_cosines(
    cos_node: i64,
    sin_node: i64,
    cos_incl: i64,
    sin_incl: i64,
    cos_obl: i64,
    sin_obl: i64,
) -> (c: (i64, i64, i64, i64, i64, i64))
    requires
        -SCALE <= cos_node <= SCALE,
        -SCALE <= sin_node <= SCALE,
        -SCALE <= cos_incl <= SCALE,
        -SCALE <= sin_incl <= SCALE,
        -SCALE <= cos_obl <= SCALE,
        -SCALE <= sin_obl <= SCALE,
    ensures
        c.0 == cos_node,
        c.1 == gauss_g(sin_node as int, cos_obl as int),
        c.2 == gauss_h(sin_node as int, sin_obl as int),
        c.3 == gauss_p(sin_node as int, cos_incl as int),
        c.4 == gauss_q(cos_node as int, cos_incl as int, cos_obl as int, sin_incl as int, sin_obl as int),
        c.5 == gauss_r(cos_node as int, cos_incl as int, sin_obl as int, sin_incl as int, cos_obl as int),
        -COSINE_SUM_MAX <= c.0 <= COSINE_SUM_MAX,
        -COSINE_SUM_MAX <= c.1 <= COSINE_SUM_MAX,
        -COSINE_SUM_MAX <= c.2 <= COSINE_SUM_MAX,
        -COSINE_SUM_MAX <= c.3 <= COSINE_SUM_MAX,
        -COSINE_SUM_MAX <= c.4 <= COSINE_SUM_MAX,
        -COSINE_SUM_MAX <= c.5 <= COSINE_SUM_MAX,
{
    proof {
        lemma_mul_bound(sin_node as int, cos_obl as int, SCALE as int, SCALE as int);
        lemma_mul_bound(sin_node as int, sin_obl as int, SCALE as int, SCALE as int);
        lemma_mul_bound(sin_node as int, cos_incl as int, SCALE as int, SCALE as int);
        lemma_mul_bound(cos_node as int, cos_incl as int, SCALE as int, SCALE as int);
        lemma_mul_bound(sin_incl as int, sin_obl as int, SCALE as int, SCALE as int);
        lemma_mul_bound(sin_incl as int, cos_obl as int, SCALE as int, SCALE as int);
    }
    let g = mul_scaled(sin_node, cos_obl, Ghost(1_000_000_000_000_000_000int));
    let h = mul_scaled(sin_node, sin_obl, Ghost(1_000_000_000_000_000_000int));
    let p = -mul_scaled(sin_node, cos_incl, Ghost(1_000_000_000_000_000_000int));
    let cn_ci = mul_scaled(cos_node, cos_incl, Ghost(1_000_000_000_000_000_000int));
    proof {
        lemma_mul_bound(cn_ci as int, cos_obl as int, SCALE as int, SCALE as int);
        lemma_mul_bound(cn_ci as int, sin_obl as int, SCALE as int, SCALE as int);
    }
    let q = mul_scaled(cn_ci, cos_obl, Ghost(1_000_000_000_000_000_000int)) - mul_scaled(
        sin_incl,
        sin_obl,
        Ghost(1_000_000_000_000_000_000int),
    );
    let rr = mul_scaled(cn_ci, sin_obl, Ghost(1_000_000_000_000_000_000int)) + mul_scaled(
        sin_incl,
        cos_obl,
        Ghost(1_000_000_000_000_000_000int),
    );
    (cos_node, g, h, p, q, rr)
}

/// The Gauss direction-cosine magnitudes `a = sqrt(F*F + P*P)`,
/// `b = sqrt(G*G + Q*Q)` and `c = sqrt(H*H + R*R)` of an orbital plane, or
/// the invalid-orbit error exactly when every direction cosine vanishes and
/// the plane's orientation is undefined.
pub fn axis_magnitudes(f: i64, p: i64, g: i64, q: i64, h: i64, rr: i64) -> (res: Result<
    (i64, i64, i64),
    Error,
>)
    requires
        -COSINE_SUM_MAX <= f <= COSINE_SUM_MAX,
        -COSINE_SUM_MAX <= p <= COSINE_SUM_MAX,
        -COSINE_SUM_MAX <= g <= COSINE_SUM_MAX,
        -COSINE_SUM_MAX <= q <= COSINE_SUM_MAX,
        -COSINE_SUM_MAX <= h <= COSINE_SUM_MAX,
        -COSINE_SUM_MAX <= rr <= COSINE_SUM_MAX,
    ensures
        (res is Err) <==> (f == 0 && p == 0 && g == 0 && q == 0 && h == 0 && rr == 0),
        res matches Err(e) ==> e == Error::DegenerateOrbit,
        res matches Ok(m) ==> is_axis_magnitude(f as int, p as int, m.0 as int)
            && is_axis_magnitude(g as int, q as int, m.1 as int) && is_axis_magnitude(
            h as int,
            rr as int,
            m.2 as int,
        ),
        res matches Ok(m) ==> 0 <= m.0 <= 6_000_000_000 && 0 <= m.1 <= 6_000_000_000 && 0 <= m.2
            <= 6_000_000_000,
{
    if f == 0 && p == 0 && g == 0 && q == 0 && h == 0 && rr == 0 {
        return Err(Error::DegenerateOrbit);
    }
    let ma = pair_magnitude(f, p);
    let mb = pair_magnitude(g, q);
    let mc = pair_magnitude(h, rr);
    Ok((ma, mb, mc))
}

/// One axis of the Gauss rectangular position: the scaled form of
/// `r * magnitude * angle`, the angle `A + w + v` entering directly as a
/// scaled value.
pub open spec fn axis_coordinate(r: int, m: int, theta: int) -> int {
    scale_down(scale_down(r * m, SCALE as int) * theta, SCALE as int)
}

/// One rectangular coordinate of the Gauss vector method: radius times axis
/// magnitude times the axis angle `A + w + v`, rescaled after each product.
pub fn gauss_axis_coordinate(radius: i64, magnitude: i64, angle: i64) -> (x: i64)
    requires
        -RADIUS_MAX <= radius <= RADIUS_MAX,
        0 <= magnitude <= 6_000_000_000,
        -ANGLE_SUM_MAX <= angle <= ANGLE_SUM_MAX,
    ensures
        x == axis_coordinate(radius as int, magnitude as int, angle as int),
        -108_086_391_056_891_904 <= x <= 108_086_391_056_891_904,
{
    proof {
        lemma_mul_bound(radius as int, magnitude as int, RADIUS_MAX as int, 6_000_000_000);
    }
    let rm = mul_scaled(radius, magnitude, Ghost(6_755_399_441_055_744_000_000_000int));
    proof {
        lemma_mul_bound(rm as int, angle as int, 6_755_399_441_055_744, ANGLE_SUM_MAX as int);
    }
    mul_scaled(rm, angle, Ghost(108_086_391_056_891_904_000_000_000int))
}

/// The parts of the Gauss vector method's equatorial transform.
pub struct GaussPosition {
    /// Direction-cosine magnitudes of the three equatorial axes.
    pub magnitudes: (i64, i64, i64),
    /// Rectangular position contributed by the orbit terms.
    pub position: (i64, i64, i64),
    /// The position translated by the Sun's rectangular position.
    pub geocentric: (i64, i64, i64),
    /// Light-time effect of the orbit terms' displacement.
    pub light_time: i64,
}

/// Everything of the Gauss equatorial transform that precedes and follows the
/// arc tangents: the axis magnitudes (or the invalid-orbit error exactly when
/// every direction cosine vanishes), the rectangular position
/// `r * magnitude * (A + w + v)` per axis, its translation by the Sun's
/// rectangular position `(sx, sy, sz)`, and the light-time effect of the
/// orbit terms alone.  The axis angles `theta_* = A + w + v` enter as scaled
/// values, their arc tangents having been taken outside.
pub fn gauss_equatorial_parts(
    f: i64,
    p: i64,
    g: i64,
    q: i64,
    h: i64,
    rr: i64,
    theta_x: i64,
    theta_y: i64,
    theta_z: i64,
    radius: i64,
    sx: i64,
    sy: i64,
    sz: i64,
) -> (res: Result<GaussPosition, Error>)
    requires
        -COSINE_SUM_MAX <= f <= COSINE_SUM_MAX,
        -COSINE_SUM_MAX <= p <= COSINE_SUM_MAX,
        -COSINE_SUM_MAX <= g <= COSINE_SUM_MAX,
        -COSINE_SUM_MAX <= q <= COSINE_SUM_MAX,
        -COSINE_SUM_MAX <= h <= COSINE_SUM_MAX,
        -COSINE_SUM_MAX <= rr <= COSINE_SUM_MAX,
        -ANGLE_SUM_MAX <= theta_x <= ANGLE_SUM_MAX,
        -ANGLE_SUM_MAX <= theta_y <= ANGLE_SUM_MAX,
        -ANGLE_SUM_MAX <= theta_z <= ANGLE_SUM_MAX,
        -RADIUS_MAX <= radius <= RADIUS_MAX,
        -COORD_MAX <= sx <= COORD_MAX,
        -COORD_MAX <= sy <= COORD_MAX,
        -COORD_MAX <= sz <= COORD_MAX,
    ensures
        (res is Err) <==> (f == 0 && p == 0 && g == 0 && q == 0 && h == 0 && rr == 0),
        res matches Err(e) ==> e == Error::DegenerateOrbit,
        res matches Ok(gp) ==> {
            &&& is_axis_magnitude(f as int, p as int, gp.magnitudes.0 as int)
            &&& is_axis_magnitude(g as int, q as int, gp.magnitudes.1 as int)
            &&& is_axis_magnitude(h as int, rr as int, gp.magnitudes.2 as int)
            &&& gp.position.0 == axis_coordinate(
                radius as int,
                gp.magnitudes.0 as int,
                theta_x as int,
            )
            &&& gp.position.1 == axis_coordinate(
                radius as int,
                gp.magnitudes.1 as int,
                theta_y as int,
            )
            &&& gp.position.2 == axis_coordinate(
                radius as int,
                gp.magnitudes.2 as int,
                theta_z as int,
            )
            &&& gp.geocentric.0 == sx + gp.position.0
            &&& gp.geocentric.1 == sy + gp.position.1
            &&& gp.geocentric.2 == sz + gp.position.2
            &&& is_light_time(
                gp.position.0 as int,
                gp.position.1 as int,
                gp.position.2 as int,
                gp.light_time as int,
            )
            &&& gp.light_time >= 0
        },
{
    let magnitudes = match axis_magnitudes(f, p, g, q, h, rr) {
        Ok(m) => m,
        Err(e) => {
            return Err(e);
        },
    };
    let x = gauss_axis_coordinate(radius, magnitudes.0, theta_x);
    let y = gauss_axis_coordinate(radius, magnitudes.1, theta_y);
    let z = gauss_axis_coordinate(radius, magnitudes.2, theta_z);
    let geocentric = rectangular_sum(sx, sy, sz, x, y, z);
    let lt = crate::lighttime::light_time(x, y, z);
    Ok(
        GaussPosition {
            magnitudes,
            position: (x, y, z),
            geocentric,
            light_time: lt,
        },
    )
}

} // verus!
