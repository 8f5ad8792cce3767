use astro::series::{
    assemble_coordinate, combine_degrees, evaluate_series, julian_millennia, term_angles,
    PeriodicTerm,
};

fn term(amplitude: i64, phase: i64, frequency: i64) -> PeriodicTerm {
    PeriodicTerm { amplitude, phase, frequency }
}

#[test]
fn empty_series_evaluates_to_zero() {
    let terms: Vec<PeriodicTerm> = Vec::new();
    let cosines: Vec<i64> = Vec::new();
    assert_eq!(evaluate_series(&terms, &cosines), 0);
}

#[test]
fn weighted_sum_exact_value() {
    // amplitudes 2.0 and 3.0, cosines 1.0 and -0.5: 2.0 - 1.5 = 0.5
    let terms = vec![term(2_000_000_000, 0, 0), term(3_000_000_000, 0, 0)];
    let cosines = vec![1_000_000_000, -500_000_000];
    assert_eq!(evaluate_series(&terms, &cosines), 500_000_000);
}

#[test]
fn series_value_ignores_term_order() {
    let terms = vec![
        term(2_000_000_000, 0, 0),
        term(3_000_000_000, 0, 0),
        term(-1_250_000_000, 0, 0),
    ];
    let cosines = vec![1_000_000_000, -500_000_000, 250_000_000];
    let reordered_terms = vec![
        term(-1_250_000_000, 0, 0),
        term(2_000_000_000, 0, 0),
        term(3_000_000_000, 0, 0),
    ];
    let reordered_cosines = vec![250_000_000, 1_000_000_000, -500_000_000];
    assert_eq!(
        evaluate_series(&terms, &cosines),
        evaluate_series(&reordered_terms, &reordered_cosines)
    );
}

#[test]
fn series_division_truncates_toward_zero() {
    // amplitude -3e-9 units, cosine 0.5: raw product -1.5, scaled to -1
    let terms = vec![term(-3, 0, 0)];
    let cosines = vec![500_000_000];
    assert_eq!(evaluate_series(&terms, &cosines), -1);
}

#[test]
fn term_angles_exact_value() {
    // t = 2.0, phase = 1.0, frequency = 3.0: angle = 1 + 2 * 3 = 7
    let terms = vec![term(5, 1_000_000_000, 3_000_000_000)];
    let angles = term_angles(2_000_000_000, &terms);
    assert_eq!(angles.len(), 1);
    assert_eq!(angles[0], 7_000_000_000);
}

#[test]
fn horner_combination_exact_value() {
    // t = 2.0, degrees (1.0, 2.0, 0, 0, 0, 0): 1 + 2 * 2 = 5
    let r = combine_degrees(2_000_000_000, 1_000_000_000, 2_000_000_000, 0, 0, 0, 0);
    assert_eq!(r, 5_000_000_000);
}

#[test]
fn horner_combination_all_degrees() {
    // t = 1.0 and all six degrees 1.0 sums to 6.0
    let one = 1_000_000_000;
    assert_eq!(combine_degrees(one, one, one, one, one, one, one), 6_000_000_000);
}

#[test]
fn assembled_coordinate_combines_all_degrees() {
    // degree 0 evaluates to 2.0, degree 1 to 1.5, the rest are empty;
    // at t = 2.0 the combination is 2.0 + 2.0 * 1.5 = 5.0
    let series = vec![
        vec![term(2_000_000_000, 0, 0)],
        vec![term(3_000_000_000, 0, 0)],
        vec![],
        vec![],
        vec![],
        vec![],
    ];
    let cosines = vec![vec![1_000_000_000], vec![500_000_000], vec![], vec![], vec![], vec![]];
    assert_eq!(assemble_coordinate(2_000_000_000, &series, &cosines), 5_000_000_000);
}

#[test]
fn assembly_of_empty_series_is_zero() {
    let series: Vec<Vec<PeriodicTerm>> = vec![vec![], vec![], vec![], vec![], vec![], vec![]];
    let cosines: Vec<Vec<i64>> = vec![vec![], vec![], vec![], vec![], vec![], vec![]];
    assert_eq!(assemble_coordinate(2_000_000_000, &series, &cosines), 0);
}

#[test]
fn assembly_admits_a_distant_radius_amplitude() {
    // a radius series whose leading amplitude is 30.07 units
    let series = vec![
        vec![term(30_070_000_000, 0, 0)],
        vec![],
        vec![],
        vec![],
        vec![],
        vec![],
    ];
    let cosines = vec![vec![1_000_000_000], vec![], vec![], vec![], vec![], vec![]];
    assert_eq!(assemble_coordinate(0, &series, &cosines), 30_070_000_000);
}

#[test]
fn julian_millennia_from_the_epoch() {
    let epoch = 2_451_545_000_000_000;
    let millennium = 365_250_000_000_000;
    assert_eq!(julian_millennia(epoch), 0);
    assert_eq!(julian_millennia(epoch + millennium), 1_000_000_000);
    assert_eq!(julian_millennia(epoch - millennium), -1_000_000_000);
    // one day past the epoch, truncated toward zero
    assert_eq!(julian_millennia(epoch + 1_000_000_000), 2_737);
}

#[test]
fn horner_combination_with_negative_time() {
    // t = -1.0 cancels two equal degree values: 1.0 + (-1.0) * 1.0 = 0
    assert_eq!(combine_degrees(-1_000_000_000, 1_000_000_000, 1_000_000_000, 0, 0, 0, 0), 0);
}

#[test]
fn term_angles_with_negative_phase_and_frequency() {
    // t = 2.0, phase = -1.0, frequency = -3.0: angle = -1 - 6 = -7
    let terms = vec![term(5, -1_000_000_000, -3_000_000_000)];
    let angles = term_angles(2_000_000_000, &terms);
    assert_eq!(angles[0], -7_000_000_000);
}

#[test]
fn horner_empty_degrees_contribute_nothing() {
    // degrees of an empty series evaluate to zero and drop out
    let r = combine_degrees(2_000_000_000, 0, 3_000_000_000, 0, 0, 0, 0);
    assert_eq!(r, 6_000_000_000);
}
