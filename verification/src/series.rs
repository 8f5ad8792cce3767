//! Periodic series and their combination into one coordinate.
//!
//! A planetary coordinate is the polynomial-in-time combination of six
//! harmonic-degree series, each series the sum of terms
//! `amplitude * cos(phase + t * frequency)`.  The cosine itself is the only
//! step that cannot be carried out over scaled integers; everything around it
//! is: the cosine arguments of a series, the amplitude-weighted sum of the
//! cosine values, and the Horner combination of the six degree values.

use crate::fixed::{div_trunc, lemma_scale_down_bound, lemma_scale_down_zero, scale_down, SCALE};
use vstd::arithmetic::mul::lemma_mul_inequality;
use vstd::prelude::*;
use vstd::seq_lib::{commutative_foldr, lemma_fold_right_permutation};

verus! {

/// One entry of a periodic series: amplitude (scaled units), phase (scaled
/// radians) and angular frequency (scaled radians per time unit).  Supplied by
/// external coefficient tables; immutable.
#[derive(Clone, Copy, PartialEq, Eq, Structural, Debug)]
pub struct PeriodicTerm {
    pub amplitude: i64,
    pub phase: i64,
    pub frequency: i64,
}

/// Largest admissible magnitude of a time argument (scaled Julian millennia
/// from the epoch): about 8.6 millennia either way, which keeps every product
/// of the Horner combination within the machine's integer range.
pub const TIME_MAX: i64 = 8_589_934_592;

/// Largest admissible magnitude of a term amplitude.
pub const AMPLITUDE_MAX: i64 = 1_125_899_906_842_624;

/// Largest admissible magnitude of a term phase.
pub const PHASE_MAX: i64 = 1_152_921_504_606_846_976;

/// Largest admissible magnitude of a term frequency.
pub const FREQUENCY_MAX: i64 = 1_125_899_906_842_624;

/// Largest admissible number of terms in one series.
pub const TERMS_MAX: usize = 4096;

/// Largest admissible magnitude of one harmonic-degree value handed to the
/// Horner combination: room for a radius series of the most distant planet.
pub const DEGREE_MAX: i64 = 163_840_000_000_000;

/// Cosine argument of one term at the scaled time `t`.
pub open spec fn term_angle(t: int, term: PeriodicTerm) -> int {
    term.phase + scale_down(t * term.frequency, SCALE as int)
}

/// The summing step of a series: one (amplitude, cosine) pair weighed into the
/// running total.
pub open spec fn weigh() -> spec_fn((int, int), int) -> int {
    |p: (int, int), acc: int| p.0 * p.1 + acc
}

/// Amplitude-weighted sum of cosine values: the unscaled value of one series
/// once the cosine of every term's angle is known.
pub open spec fn weighted_sum(pairs: Seq<(int, int)>) -> int
    decreases pairs.len(),
{
    if pairs.len() == 0 {
        0
    } else {
        weighted_sum(pairs.drop_last()) + pairs.last().0 * pairs.last().1
    }
}

/// Each term's amplitude paired with the cosine of its angle.
pub open spec fn amplitude_cosine_pairs(terms: Seq<PeriodicTerm>, cosines: Seq<i64>) -> Seq<
    (int, int),
> {
    Seq::new(terms.len(), |k: int| (terms[k].amplitude as int, cosines[k] as int))
}

/// One Horner step: the next-lower degree value plus the rescaled product of
/// time and the accumulator.
pub open spec fn horner_step(t: int, acc: int, coeff: int) -> int {
    coeff + scale_down(t * acc, SCALE as int)
}

/// The combined coordinate `d0 + t*(d1 + t*(d2 + t*(d3 + t*(d4 + t*d5))))`,
/// every multiplication by `t` rescaled.
pub open spec fn combined_value(t: int, d0: int, d1: int, d2: int, d3: int, d4: int, d5: int) -> int {
    horner_step(
        t,
        horner_step(t, horner_step(t, horner_step(t, horner_step(t, d5, d4), d3), d2), d1),
        d0,
    )
}

/// Cosine arguments `phase + t * frequency` of every term of a series, at the
/// scaled time `t`.  The unverified front end takes the cosines of these.
pub fn term_angles(t: i64, terms: &Vec<PeriodicTerm>) -> (r: Vec<i64>)
    requires
        -TIME_MAX <= t <= TIME_MAX,
        forall|k: int|
            0 <= k < terms@.len() ==> -PHASE_MAX <= (#[trigger] terms@[k]).phase <= PHASE_MAX
                && -FREQUENCY_MAX <= terms@[k].frequency <= FREQUENCY_MAX,
    ensures
        r@.len() == terms@.len(),
        forall|k: int| 0 <= k < terms@.len() ==> r@[k] == term_angle(t as int, #[trigger] terms@[k]),
{
    let mut r: Vec<i64> = Vec::new();
    let mut k: usize = 0;
    while k < terms.len()
        invariant
            k <= terms@.len(),
            r@.len() == k,
            -TIME_MAX <= t <= TIME_MAX,
            forall|j: int|
                0 <= j < terms@.len() ==> -PHASE_MAX <= (#[trigger] terms@[j]).phase <= PHASE_MAX
                    && -FREQUENCY_MAX <= terms@[j].frequency <= FREQUENCY_MAX,
            forall|j: int| 0 <= j < k ==> r@[j] == term_angle(t as int, #[trigger] terms@[j]),
        decreases terms@.len() - k,
    {
        let term = terms[k];
        proof {
            assert(-9_671_406_556_917_033_397_649_408 <= (t as int) * (term.frequency as int)
                <= 9_671_406_556_917_033_397_649_408) by (nonlinear_arith)
                requires
                    -8_589_934_592 <= t <= 8_589_934_592,
                    -1_125_899_906_842_624i64 <= term.frequency <= 1_125_899_906_842_624i64;
            lemma_scale_down_bound(
                (t as int) * (term.frequency as int),
                SCALE as int,
                9_671_406_556_917_033_397_649_408,
            );
        }
        let p = (t as i128) * (term.frequency as i128);
        let sd = div_trunc(p, 1_000_000_000);
        let angle = term.phase + (sd as i64);
        r.push(angle);
        k += 1;
    }
    r
}

/// The value of one series at one time, scaled: the amplitude-weighted sum of
/// the terms' cosines, divided by `SCALE` once since amplitudes and cosines
/// are each scaled.  An empty series contributes zero.
pub fn evaluate_series(terms: &Vec<PeriodicTerm>, cosines: &Vec<i64>) -> (r: i64)
    requires
        cosines@.len() == terms@.len(),
        terms@.len() <= TERMS_MAX,
        forall|k: int|
            0 <= k < terms@.len() ==> -AMPLITUDE_MAX <= (#[trigger] terms@[k]).amplitude
                <= AMPLITUDE_MAX,
        forall|k: int| 0 <= k < cosines@.len() ==> -SCALE <= #[trigger] cosines@[k] <= SCALE,
    ensures
        r == scale_down(weighted_sum(amplitude_cosine_pairs(terms@, cosines@)), SCALE as int),
        terms@.len() == 0 ==> r == 0,
{
    let ghost pairs = amplitude_cosine_pairs(terms@, cosines@);
    let mut acc: i128 = 0;
    let mut k: usize = 0;
    while k < terms.len()
        invariant
            k <= terms@.len(),
            terms@.len() <= TERMS_MAX,
            cosines@.len() == terms@.len(),
            pairs == amplitude_cosine_pairs(terms@, cosines@),
            forall|j: int|
                0 <= j < terms@.len() ==> -AMPLITUDE_MAX <= (#[trigger] terms@[j]).amplitude
                    <= AMPLITUDE_MAX,
            forall|j: int| 0 <= j < cosines@.len() ==> -SCALE <= #[trigger] cosines@[j] <= SCALE,
            acc == weighted_sum(pairs.take(k as int)),
            -(k as int) * 1_125_899_906_842_624_000_000_000 <= acc <= (k as int)
                * 1_125_899_906_842_624_000_000_000,
        decreases terms@.len() - k,
    {
        let term = terms[k];
        let c = cosines[k];
        proof {
            assert(-1_125_899_906_842_624_000_000_000 <= (term.amplitude as int) * (c as int)
                <= 1_125_899_906_842_624_000_000_000) by (nonlinear_arith)
                requires
                    -1_125_899_906_842_624i64 <= term.amplitude <= 1_125_899_906_842_624i64,
                    -1_000_000_000i64 <= c <= 1_000_000_000i64;
            assert((k + 1) as int * 1_125_899_906_842_624_000_000_000 <= 4096
                * 1_125_899_906_842_624_000_000_000) by (nonlinear_arith)
                requires
                    k < 4096;
            assert(pairs.take(k + 1).drop_last() =~= pairs.take(k as int));
            assert(pairs.take(k + 1).last() == (term.amplitude as int, c as int));
        }
        let p = (term.amplitude as i128) * (c as i128);
        acc = acc + p;
        k += 1;
    }
    proof {
        assert(pairs.take(terms@.len() as int) =~= pairs);
        lemma_scale_down_bound(acc as int, SCALE as int, 4_611_686_018_427_387_904_000_000_000);
    }
    let s = div_trunc(acc, 1_000_000_000);
    s as i64
}

/// A weighted sum of bounded pairs is bounded by so many products of the
/// bounds as there are pairs.
pub proof fn lemma_weighted_sum_bound(pairs: Seq<(int, int)>, ma: int, mb: int)
    requires
        0 <= ma,
        0 <= mb,
        forall|k: int|
            0 <= k < pairs.len() ==> -ma <= (#[trigger] pairs[k]).0 <= ma && -mb <= pairs[k].1
                <= mb,
    ensures
        -(pairs.len() * (ma * mb)) <= weighted_sum(pairs) <= pairs.len() * (ma * mb),
    decreases pairs.len(),
{
    if pairs.len() == 0 {
    } else {
        let rest = pairs.drop_last();
        lemma_weighted_sum_bound(rest, ma, mb);
        crate::fixed::lemma_mul_bound(pairs.last().0, pairs.last().1, ma, mb);
        assert((pairs.len() - 1) * (ma * mb) + (ma * mb) == pairs.len() * (ma * mb))
            by (nonlinear_arith);
    }
}

/// Law: the value of a series does not depend on the order of its terms.  Two
/// sequences of (amplitude, cosine) pairs that hold the same multiset of pairs
/// have exactly the same weighted sum.
pub proof fn lemma_weighted_sum_permutation(s1: Seq<(int, int)>, s2: Seq<(int, int)>)
    requires
        s1.to_multiset() == s2.to_multiset(),
    ensures
        weighted_sum(s1) == weighted_sum(s2),
{
    lemma_weighted_sum_is_fold(s1, 0);
    lemma_weighted_sum_is_fold(s2, 0);
    assert(commutative_foldr(weigh())) by {
        assert forall|x: (int, int), y: (int, int), v: int| #[trigger] weigh()(
            x,
            weigh()(y, v),
        ) == weigh()(y, weigh()(x, v)) by {
        }
    }
    lemma_fold_right_permutation(s1, s2, weigh(), 0);
}

/// Law: a series' value is invariant to reordering its terms.  Two series
/// whose (amplitude, cosine) pairs form the same multiset — one a permutation
/// of the other — have exactly the same scaled value.
pub proof fn lemma_series_value_reorder(
    terms1: Seq<PeriodicTerm>,
    cosines1: Seq<i64>,
    terms2: Seq<PeriodicTerm>,
    cosines2: Seq<i64>,
)
    requires
        amplitude_cosine_pairs(terms1, cosines1).to_multiset() == amplitude_cosine_pairs(
            terms2,
            cosines2,
        ).to_multiset(),
    ensures
        degree_value(terms1, cosines1) == degree_value(terms2, cosines2),
{
    lemma_weighted_sum_permutation(
        amplitude_cosine_pairs(terms1, cosines1),
        amplitude_cosine_pairs(terms2, cosines2),
    );
}

/// Folding `weigh` from the right computes the weighted sum, whatever the
/// base value.
proof fn lemma_weighted_sum_is_fold(s: Seq<(int, int)>, b: int)
    ensures
        s.fold_right(weigh(), b) == weighted_sum(s) + b,
    decreases s.len(),
{
    if s.len() > 0 {
        lemma_weighted_sum_is_fold(s.drop_last(), weigh()(s.last(), b));
    }
}

/// The combined coordinate of six harmonic-degree values: the Horner scheme
/// `d0 + t*(d1 + t*(d2 + t*(d3 + t*(d4 + t*d5))))`, each product rescaled.
/// Degenerate degrees (an empty series evaluated to zero) simply contribute
/// nothing.
pub fn combine_degrees(t: i64, d0: i64, d1: i64, d2: i64, d3: i64, d4: i64, d5: i64) -> (r: i64)
    requires
        -TIME_MAX <= t <= TIME_MAX,
        -DEGREE_MAX <= d0 <= DEGREE_MAX,
        -DEGREE_MAX <= d1 <= DEGREE_MAX,
        -DEGREE_MAX <= d2 <= DEGREE_MAX,
        -DEGREE_MAX <= d3 <= DEGREE_MAX,
        -DEGREE_MAX <= d4 <= DEGREE_MAX,
        -DEGREE_MAX <= d5 <= DEGREE_MAX,
    ensures
        r == combined_value(t as int, d0 as int, d1 as int, d2 as int, d3 as int, d4 as int, d5 as int),
{
    let acc5: i128 = d5 as i128;
    proof {
        assert(-1_407_374_883_553_280_000_000_000 <= (t as int) * (acc5 as int)
            <= 1_407_374_883_553_280_000_000_000) by (nonlinear_arith)
            requires
                -8_589_934_592 <= t <= 8_589_934_592,
                -163_840_000_000_000 <= acc5 <= 163_840_000_000_000i128;
        lemma_scale_down_bound(
            (t as int) * (acc5 as int),
            SCALE as int,
            1_407_374_883_553_280_000_000_000,
        );
    }
    let acc4: i128 = (d4 as i128) + div_trunc((t as i128) * acc5, 1_000_000_000);
    proof {
        assert(-13_743_895_347_200_000_000_000_000 <= (t as int) * (acc4 as int)
            <= 13_743_895_347_200_000_000_000_000) by (nonlinear_arith)
            requires
                -8_589_934_592 <= t <= 8_589_934_592,
                -1_600_000_000_000_000i128 <= acc4 <= 1_600_000_000_000_000i128;
        lemma_scale_down_bound(
            (t as int) * (acc4 as int),
            SCALE as int,
            13_743_895_347_200_000_000_000_000,
        );
    }
    let acc3: i128 = (d3 as i128) + div_trunc((t as i128) * acc4, 1_000_000_000);
    proof {
        assert(-120_259_084_288_000_000_000_000_000 <= (t as int) * (acc3 as int)
            <= 120_259_084_288_000_000_000_000_000) by (nonlinear_arith)
            requires
                -8_589_934_592 <= t <= 8_589_934_592,
                -14_000_000_000_000_000i128 <= acc3 <= 14_000_000_000_000_000i128;
        lemma_scale_down_bound(
            (t as int) * (acc3 as int),
            SCALE as int,
            120_259_084_288_000_000_000_000_000,
        );
    }
    let acc2: i128 = (d2 as i128) + div_trunc((t as i128) * acc3, 1_000_000_000);
    proof {
        assert(-1_039_382_085_632_000_000_000_000_000 <= (t as int) * (acc2 as int)
            <= 1_039_382_085_632_000_000_000_000_000) by (nonlinear_arith)
            requires
                -8_589_934_592 <= t <= 8_589_934_592,
                -121_000_000_000_000_000i128 <= acc2 <= 121_000_000_000_000_000i128;
        lemma_scale_down_bound(
            (t as int) * (acc2 as int),
            SCALE as int,
            1_039_382_085_632_000_000_000_000_000,
        );
    }
    let acc1: i128 = (d1 as i128) + div_trunc((t as i128) * acc2, 1_000_000_000);
    proof {
        assert(-8_933_531_975_680_000_000_000_000_000 <= (t as int) * (acc1 as int)
            <= 8_933_531_975_680_000_000_000_000_000) by (nonlinear_arith)
            requires
                -8_589_934_592 <= t <= 8_589_934_592,
                -1_040_000_000_000_000_000i128 <= acc1 <= 1_040_000_000_000_000_000i128;
        lemma_scale_down_bound(
            (t as int) * (acc1 as int),
            SCALE as int,
            8_933_531_975_680_000_000_000_000_000,
        );
    }
    let acc0: i128 = (d0 as i128) + div_trunc((t as i128) * acc1, 1_000_000_000);
    acc0 as i64
}

/// Largest admissible magnitude of a term amplitude inside a full coordinate
/// assembly: 40 units, comfortably past the most distant planet's radius
/// series, and small enough that even the longest admissible series stays
/// within `DEGREE_MAX`.
pub const ASSEMBLY_AMPLITUDE_MAX: i64 = 40_000_000_000;

/// The scaled value of one series once its cosines are known.
pub open spec fn degree_value(terms: Seq<PeriodicTerm>, cosines: Seq<i64>) -> int {
    scale_down(weighted_sum(amplitude_cosine_pairs(terms, cosines)), SCALE as int)
}

/// The value of one harmonic-degree series, shown to stay within
/// `DEGREE_MAX` so it can enter the Horner combination.
fn bounded_degree(terms: &Vec<PeriodicTerm>, cosines: &Vec<i64>) -> (r: i64)
    requires
        cosines@.len() == terms@.len(),
        terms@.len() <= TERMS_MAX,
        forall|k: int|
            0 <= k < terms@.len() ==> -ASSEMBLY_AMPLITUDE_MAX <= (#[trigger] terms@[k]).amplitude
                <= ASSEMBLY_AMPLITUDE_MAX,
        forall|k: int| 0 <= k < cosines@.len() ==> -SCALE <= #[trigger] cosines@[k] <= SCALE,
    ensures
        r == degree_value(terms@, cosines@),
        -DEGREE_MAX <= r <= DEGREE_MAX,
{
    let r = evaluate_series(terms, cosines);
    proof {
        let pairs = amplitude_cosine_pairs(terms@, cosines@);
        lemma_weighted_sum_bound(pairs, ASSEMBLY_AMPLITUDE_MAX as int, SCALE as int);
        lemma_mul_inequality(pairs.len() as int, 4096, 40_000_000_000_000_000_000);
        lemma_scale_down_bound(
            weighted_sum(pairs),
            SCALE as int,
            163_840_000_000_000_000_000_000,
        );
    }
    r
}

/// One full coordinate of one body: the six harmonic-degree series evaluated
/// at the scaled time `t` — their cosines supplied alongside — and combined
/// by the Horner scheme.  An empty series at some degree contributes zero;
/// no degree errs.
pub fn assemble_coordinate(
    t: i64,
    series: &Vec<Vec<PeriodicTerm>>,
    cosines: &Vec<Vec<i64>>,
) -> (r: i64)
    requires
        -TIME_MAX <= t <= TIME_MAX,
        series@.len() == 6,
        cosines@.len() == 6,
        forall|d: int| 0 <= d < 6 ==> (#[trigger] cosines@[d])@.len() == series@[d]@.len(),
        forall|d: int| 0 <= d < 6 ==> (#[trigger] series@[d])@.len() <= TERMS_MAX,
        forall|d: int, k: int|
            0 <= d < 6 && 0 <= k < series@[d]@.len() ==> -ASSEMBLY_AMPLITUDE_MAX <= (#[trigger] series@[d]@[k]).amplitude <= ASSEMBLY_AMPLITUDE_MAX,
        forall|d: int, k: int|
            0 <= d < 6 && 0 <= k < cosines@[d]@.len() ==> -SCALE <= (#[trigger] cosines@[d]@[k])
                <= SCALE,
    ensures
        r == combined_value(
            t as int,
            degree_value(series@[0]@, cosines@[0]@),
            degree_value(series@[1]@, cosines@[1]@),
            degree_value(series@[2]@, cosines@[2]@),
            degree_value(series@[3]@, cosines@[3]@),
            degree_value(series@[4]@, cosines@[4]@),
            degree_value(series@[5]@, cosines@[5]@),
        ),
        (forall|d: int| 0 <= d < 6 ==> (#[trigger] series@[d])@.len() == 0) ==> r == 0,
{
    let d0 = bounded_degree(&series[0], &cosines[0]);
    let d1 = bounded_degree(&series[1], &cosines[1]);
    let d2 = bounded_degree(&series[2], &cosines[2]);
    let d3 = bounded_degree(&series[3], &cosines[3]);
    let d4 = bounded_degree(&series[4], &cosines[4]);
    let d5 = bounded_degree(&series[5], &cosines[5]);
    proof {
        if forall|d: int| 0 <= d < 6 ==> (#[trigger] series@[d])@.len() == 0 {
            lemma_scale_down_zero(SCALE as int);
            lemma_empty_combination(t as int);
        }
    }
    combine_degrees(t, d0, d1, d2, d3, d4, d5)
}

/// Law: six zero degree values combine to exactly zero, whatever the time —
/// the degenerate assembly of empty series never errs and contributes
/// nothing.
pub proof fn lemma_empty_combination(t: int)
    ensures
        combined_value(t, 0, 0, 0, 0, 0, 0) == 0,
{
    assert(t * 0 == 0) by (nonlinear_arith);
    lemma_scale_down_zero(SCALE as int);
}

/// Scaled Julian Date of the J2000 epoch.
pub const EPOCH_J2000: i64 = 2_451_545_000_000_000;

/// Days per Julian millennium.
pub const DAYS_PER_MILLENNIUM: i64 = 365_250;

/// Scaled Julian millennia from the J2000 epoch for a scaled Julian Date:
/// `(jd - 2451545) / 365250`, truncated toward zero.  This is the time
/// argument the series evaluation takes.
pub fn julian_millennia(jd: i64) -> (t: i64)
    ensures
        t == scale_down(jd - EPOCH_J2000, DAYS_PER_MILLENNIUM as int),
{
    proof {
        lemma_scale_down_bound(
            jd - EPOCH_J2000,
            DAYS_PER_MILLENNIUM as int,
            9_225_823_581_854_775_808,
        );
    }
    let shifted = (jd as i128) - (EPOCH_J2000 as i128);
    let q = div_trunc(shifted, DAYS_PER_MILLENNIUM as i128);
    q as i64
}

} // verus!
