use astro::transform::{
    axis_magnitudes, gauss_axis_coordinate, gauss_direction_cosines, gauss_equatorial_parts,
    geocentric_ecliptic_parts, latitude_slope, orbital_plane_position, rectangular_offset,
    rectangular_sum, spherical_to_rectangular,
};
use astro::Error;

const ONE: i64 = 1_000_000_000;

#[test]
fn identical_positions_give_zero_displacement() {
    // a body referred to itself: the documented degenerate geocentric case
    let d = rectangular_offset(7 * ONE, -3 * ONE, ONE, 7 * ONE, -3 * ONE, ONE);
    assert_eq!(d, (0, 0, 0));
    assert_eq!(astro::lighttime::light_time(d.0, d.1, d.2), 0);
    assert!(latitude_slope(d.0, d.1, d.2).is_none());
}

#[test]
fn offset_and_sum_are_componentwise() {
    assert_eq!(rectangular_offset(5, 6, 7, 1, 2, 3), (4, 4, 4));
    assert_eq!(rectangular_sum(5, 6, 7, 1, 2, 3), (6, 8, 10));
}

#[test]
fn latitude_slope_exact_value() {
    // projection length 5.0, height 5.0: slope exactly 1.0
    let s = latitude_slope(3 * ONE, 4 * ONE, 5 * ONE);
    assert_eq!(s, Some(ONE as i128));
}

#[test]
fn latitude_slope_of_flat_displacement_is_zero() {
    assert_eq!(latitude_slope(3 * ONE, 4 * ONE, 0), Some(0));
}

#[test]
fn latitude_slope_degenerate_without_projection() {
    assert!(latitude_slope(0, 0, 9 * ONE).is_none());
    assert!(latitude_slope(0, 0, 0).is_none());
}

#[test]
fn body_on_reference_axis_at_unit_distance() {
    // i = 0, sigma = 0, w = 0, v = 0, r = 1: position (1, 0, 0)
    let p = orbital_plane_position(ONE, 0, ONE, 0, ONE, 0, ONE);
    assert_eq!(p, (ONE, 0, 0));
    assert_eq!(latitude_slope(p.0, p.1, p.2), Some(0));
}

#[test]
fn zero_inclination_keeps_motion_planar() {
    // sin i = 0 with arbitrary node and argument: z and latitude vanish
    let cos_node = 866_025_403;
    let sin_node = 500_000_000;
    let cos_arg = -500_000_000;
    let sin_arg = 866_025_403;
    let p = orbital_plane_position(cos_node, sin_node, ONE, 0, cos_arg, sin_arg, 2 * ONE);
    assert_eq!(p.2, 0);
    assert_eq!(latitude_slope(p.0, p.1, p.2), Some(0));
}

#[test]
fn rectangular_from_spherical_axes() {
    // longitude 0, latitude 0, radius 2: on the reference axis
    assert_eq!(spherical_to_rectangular(ONE, 0, ONE, 0, 2 * ONE), (2 * ONE, 0, 0));
    // longitude a quarter turn: on the second axis
    assert_eq!(spherical_to_rectangular(0, ONE, ONE, 0, 2 * ONE), (0, 2 * ONE, 0));
    // latitude a quarter turn: on the pole
    assert_eq!(spherical_to_rectangular(ONE, 0, 0, ONE, 2 * ONE), (0, 0, 2 * ONE));
}

#[test]
fn identical_spherical_positions_give_the_degenerate_case() {
    let p = spherical_to_rectangular(866_025_403, 500_000_000, 866_025_403, -500_000_000, 3 * ONE);
    let parts = geocentric_ecliptic_parts(p.0, p.1, p.2, p.0, p.1, p.2);
    assert_eq!(parts.0, (0, 0, 0));
    assert!(parts.1.is_none());
    assert_eq!(parts.2, 0);
}

#[test]
fn direction_cosines_of_zero_angles() {
    // sigma = i = obliquity = 0: pairs (1,0), (0,1), (0,0)
    let c = gauss_direction_cosines(ONE, 0, ONE, 0, ONE, 0);
    assert_eq!(c, (ONE, 0, 0, 0, ONE, 0));
    assert_eq!(axis_magnitudes(c.0, c.3, c.1, c.4, c.2, c.5), Ok((ONE, ONE, 0)));
}

#[test]
fn direction_cosines_of_a_quarter_turn_node() {
    // sigma = 90 degrees, i = obliquity = 0
    let c = gauss_direction_cosines(0, ONE, ONE, 0, ONE, 0);
    assert_eq!(c, (0, ONE, 0, -ONE, 0, 0));
}

#[test]
fn axis_magnitudes_of_zero_angles() {
    // sigma = i = obliquity = 0: pairs (1,0), (0,1), (0,0)
    let m = axis_magnitudes(ONE, 0, 0, ONE, 0, 0);
    assert_eq!(m, Ok((ONE, ONE, 0)));
}

#[test]
fn axis_magnitudes_exact_values() {
    let m = axis_magnitudes(3 * ONE, 4 * ONE, 0, ONE, ONE, 0);
    assert_eq!(m, Ok((5 * ONE, ONE, ONE)));
}

#[test]
fn vanished_direction_cosines_are_a_degenerate_orbit() {
    assert_eq!(axis_magnitudes(0, 0, 0, 0, 0, 0), Err(Error::DegenerateOrbit));
}

#[test]
fn geocentric_parts_match_their_components() {
    let parts = geocentric_ecliptic_parts(5 * ONE, 6 * ONE, 7 * ONE, ONE, 2 * ONE, 3 * ONE);
    assert_eq!(parts.0, (4 * ONE, 4 * ONE, 4 * ONE));
    assert_eq!(parts.1, latitude_slope(4 * ONE, 4 * ONE, 4 * ONE));
    assert_eq!(parts.2, astro::lighttime::light_time(4 * ONE, 4 * ONE, 4 * ONE));
}

#[test]
fn geocentric_parts_of_identical_positions_are_degenerate() {
    let parts = geocentric_ecliptic_parts(5 * ONE, 6 * ONE, 7 * ONE, 5 * ONE, 6 * ONE, 7 * ONE);
    assert_eq!(parts.0, (0, 0, 0));
    assert!(parts.1.is_none());
    assert_eq!(parts.2, 0);
}

#[test]
fn gauss_parts_of_zero_angles() {
    // sigma = i = obliquity = w = v = 0: direction-cosine pairs (1,0), (0,1)
    // and (0,0); the axis angles atan2(1,0), atan2(0,1), atan2(0,0) enter as
    // the scaled values pi/2, 0 and 0
    let half_pi = 1_570_796_326;
    let gp = gauss_equatorial_parts(
        ONE,
        0,
        0,
        ONE,
        0,
        0,
        half_pi,
        0,
        0,
        ONE,
        10 * ONE,
        20 * ONE,
        30 * ONE,
    )
    .unwrap();
    assert_eq!(gp.magnitudes, (ONE, ONE, 0));
    assert_eq!(gp.position, (half_pi, 0, 0));
    assert_eq!(gp.geocentric, (10 * ONE + half_pi, 20 * ONE, 30 * ONE));
    assert_eq!(gp.light_time, astro::lighttime::light_time(half_pi, 0, 0));
}

#[test]
fn gauss_parts_of_vanished_cosines_err() {
    let res = gauss_equatorial_parts(0, 0, 0, 0, 0, 0, 0, 0, 0, ONE, 0, 0, 0);
    assert!(matches!(res, Err(Error::DegenerateOrbit)));
}

#[test]
fn gauss_axis_coordinate_exact_value() {
    // r = 1.0, magnitude = 5.0, angle = 2.0: coordinate 10.0
    assert_eq!(gauss_axis_coordinate(ONE, 5 * ONE, 2 * ONE), 10 * ONE);
}
