use astro::fixed::{div_trunc, isqrt_u128};
use astro::lighttime::light_time;

#[test]
fn zero_displacement_takes_no_time() {
    assert_eq!(light_time(0, 0, 0), 0);
}

#[test]
fn one_astronomical_unit_matches_the_constant() {
    // 0.0057755183 days per astronomical unit, truncated to nine places
    assert_eq!(light_time(1_000_000_000, 0, 0), 5_775_518);
}

#[test]
fn light_time_grows_with_distance() {
    // a 3-4-5 displacement of length 5.0
    let far = light_time(3_000_000_000, 4_000_000_000, 0);
    let near = light_time(1_000_000_000, 0, 0);
    assert_eq!(far, 28_877_591);
    assert!(near <= far);
}

#[test]
fn light_time_ignores_sign_of_components() {
    assert_eq!(
        light_time(-3_000_000_000, 4_000_000_000, 0),
        light_time(3_000_000_000, -4_000_000_000, 0)
    );
}

#[test]
fn integer_square_root_values() {
    assert_eq!(isqrt_u128(0), 0);
    assert_eq!(isqrt_u128(1), 1);
    assert_eq!(isqrt_u128(15), 3);
    assert_eq!(isqrt_u128(16), 4);
    assert_eq!(isqrt_u128(1_000_000_000_000_000_000), 1_000_000_000);
}

#[test]
fn light_time_total_at_the_extremes() {
    // the most distant representable displacement still has a light time
    let lt = light_time(i64::MIN, i64::MIN, i64::MIN);
    assert!(lt > 0);
    assert!(lt >= light_time(i64::MAX, i64::MAX, i64::MAX));
}

#[test]
fn integer_square_root_at_the_top_of_the_range() {
    assert_eq!(isqrt_u128(u128::MAX), u64::MAX as u128);
}

#[test]
fn division_truncates_toward_zero() {
    assert_eq!(div_trunc(7, 2), 3);
    assert_eq!(div_trunc(-7, 2), -3);
    assert_eq!(div_trunc(0, 5), 0);
}
