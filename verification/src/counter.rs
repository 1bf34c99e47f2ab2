//! One measured metric and the two-sample test that compares two of them.
//!
//! Two conventions hold throughout. A change is given in percent of the
//! mean before: `(after - before) / before * 100`. And whether a change is
//! significant is decided by the t-statistic against the critical value, not
//! by a confidence interval around the percentage.

use vstd::prelude::*;
use crate::critical::{critical_value_95, critical_value_milli, lemma_critical_value_bounds};
use crate::exact::{product_exceeds, lemma_product_bound};

verus! {

/// One metric of one benchmarked command: the mean over its repetitions.
///
/// Numbers are fixed-point with three decimal places, so that every
/// comparison is exact: `value` counts thousandths of `unit`, `variance`
/// thousandths of the unit squared.
#[derive(Debug, Clone, PartialEq, Eq)]
pub struct BenchCounter {
    /// The sample mean, in thousandths of the unit.
    pub value: i64,
    /// The sample variance, in thousandths of the unit squared; 0 where
    /// there was one repetition only.
    pub variance: u64,
    /// How many repetitions the mean and the variance were taken from.
    pub repetitions: u32,
    /// The unit that the mean is displayed with.
    pub unit: String,
}

/// A change in percent, as the exact fraction `numerator / denominator`.
#[derive(Debug, Clone, Copy, PartialEq, Eq)]
pub struct Percentage {
    /// A hundred times the difference of the two means.
    pub numerator: i128,
    /// The mean before.
    pub denominator: i64,
}

/// What a comparison says of a metric.
#[derive(Debug, Clone, Copy, PartialEq, Eq)]
pub enum Verdict {
    /// The metric has grown significantly: more cycles, more time.
    Worse,
    /// The metric has shrunk significantly.
    Better,
    /// The change is within the noise, or has no percentage.
    Neutral,
}

impl Verdict {
    /// The verdict on the same two samples taken the other way round.
    pub open spec fn reversed(self) -> Verdict {
        match self {
            Verdict::Worse => Verdict::Better,
            Verdict::Better => Verdict::Worse,
            Verdict::Neutral => Verdict::Neutral,
        }
    }
}

impl Percentage {
    /// Whether the fraction is one that two means can give: its denominator
    /// is not zero, and its numerator is a hundred times a difference of two
    /// means.
    pub open spec fn wf(self) -> bool {
        &&& self.denominator != 0
        &&& -1844674407370955161500 <= self.numerator <= 1844674407370955161500
    }

    /// -1, 0 or 1 as the fraction is below, at or above zero.
    pub open spec fn sign(self) -> int {
        if self.numerator == 0 || self.denominator == 0 {
            0
        } else if (self.numerator > 0) == (self.denominator > 0) {
            1
        } else {
            -1
        }
    }

    /// Whether the change is above zero.
    pub fn is_positive(&self) -> (r: bool)
        ensures
            r == (self.sign() == 1),
    {
        self.numerator != 0 && self.denominator != 0 && ((self.numerator > 0) == (self.denominator
            > 0))
    }

    /// Whether the change is below zero.
    pub fn is_negative(&self) -> (r: bool)
        ensures
            r == (self.sign() == -1),
    {
        self.numerator != 0 && self.denominator != 0 && ((self.numerator > 0) != (self.denominator
            > 0))
    }
}

impl BenchCounter {
    /// Whether the counter is one that a measurement can give: it was taken
    /// from one repetition at least.
    pub open spec fn wf(&self) -> bool {
        self.repetitions >= 1
    }

    /// A counter from its parts; none where there was no repetition to take
    /// a mean from.
    pub fn new(value: i64, variance: u64, repetitions: u32, unit: String) -> (r: Option<Self>)
        ensures
            r is Some <==> repetitions >= 1,
            r matches Some(c) ==> c.wf() && c.value == value && c.variance == variance
                && c.repetitions == repetitions && c.unit == unit,
    {
        if repetitions >= 1 {
            Some(BenchCounter { value, variance, repetitions, unit })
        } else {
            None
        }
    }

    /// The degrees of freedom of the test on two samples.
    pub open spec fn degrees_of_freedom(before: &Self, after: &Self) -> int {
        before.repetitions + after.repetitions - 2
    }

    /// The square of the difference of the two means, in millionths of the
    /// unit squared.
    pub open spec fn squared_difference(before: &Self, after: &Self) -> int {
        (after.value - before.value) * (after.value - before.value)
    }

    /// The sum of squared deviations of both samples together, in thousandths
    /// of the unit squared: the pooled variance times the degrees of freedom.
    pub open spec fn pooled_deviations(before: &Self, after: &Self) -> int {
        (before.repetitions - 1) * before.variance + (after.repetitions - 1) * after.variance
    }

    /// Whether the two means differ beyond noise, by a two-sample t-test at
    /// 95% two-tailed confidence.
    ///
    /// With `n1`, `n2` the repetitions, `df = n1 + n2 - 2`, `d` the
    /// difference of the means, `p` the pooled sum of squared deviations and
    /// `c` the critical value for `df`, the statistic is
    /// `t = |d| / sqrt(p / df * (1 / n1 + 1 / n2))`, and `t > c` is the same
    /// as `d^2 * df * n1 * n2 > c^2 * p * (n1 + n2)`. The factors 1000 below
    /// bring `d^2` (millionths), `p` (thousandths) and `c^2` (millionths) to
    /// one scale. With no degree of freedom, or a sample without repetitions,
    /// nothing is significant.
    pub open spec fn significant(before: &Self, after: &Self) -> bool {
        let df = Self::degrees_of_freedom(before, after);
        let c = critical_value_milli(df as nat);
        &&& before.repetitions >= 1
        &&& after.repetitions >= 1
        &&& df >= 1
        &&& Self::squared_difference(before, after) * (1000 * df * (before.repetitions
            * after.repetitions)) > Self::pooled_deviations(before, after) * (c * c * (
        before.repetitions + after.repetitions))
    }

    /// The change from `before` to `after` in percent of `before`:
    /// `(after - before) / before * 100`; none where `before` is zero.
    pub open spec fn change(before: &Self, after: &Self) -> Option<Percentage> {
        if before.value == 0 {
            None
        } else {
            Some(
                Percentage {
                    numerator: ((after.value - before.value) * 100) as i128,
                    denominator: before.value,
                },
            )
        }
    }

    /// What the comparison says: a change is for the worse where it is
    /// significant and its percentage is above zero, for the better where
    /// it is significant and its percentage is below zero. A change without
    /// a percentage, from a mean of zero, is taken as neutral.
    pub open spec fn verdict(before: &Self, after: &Self) -> Verdict {
        match Self::change(before, after) {
            Some(p) => if !Self::significant(before, after) {
                Verdict::Neutral
            } else if p.sign() > 0 {
                Verdict::Worse
            } else {
                Verdict::Better
            },
            None => Verdict::Neutral,
        }
    }

    /// Compares two samples and says whether the metric got worse, got
    /// better, or neither.
    pub fn compare(before: &Self, after: &Self) -> (r: Verdict)
        ensures
            r == Self::verdict(before, after),
    {
        match Self::improvement_percentage(before, after) {
            Some(p) => {
                if !Self::is_significant(before, after) {
                    Verdict::Neutral
                } else if p.is_positive() {
                    Verdict::Worse
                } else {
                    Verdict::Better
                }
            },
            None => Verdict::Neutral,
        }
    }

    /// The change of the mean from `before` to `after`, in percent of the
    /// mean before. Above zero the metric has grown.
    pub fn improvement_percentage(before: &Self, after: &Self) -> (r: Option<Percentage>)
        ensures
            r == Self::change(before, after),
            r is None <==> before.value == 0,
            r matches Some(p) ==> p.numerator == (after.value - before.value) * 100
                && p.denominator == before.value && p.wf(),
    {
        if before.value == 0 {
            None
        } else {
            let diff: i128 = after.value as i128 - before.value as i128;
            Some(Percentage { numerator: diff * 100, denominator: before.value })
        }
    }

    /// Performs the t-test at 95% two-tailed confidence on two samples.
    pub fn is_significant(before: &Self, after: &Self) -> (r: bool)
        ensures
            r == Self::significant(before, after),
    {
        if before.repetitions < 1 || after.repetitions < 1 {
            return false;
        }
        let n1: u128 = before.repetitions as u128;
        let n2: u128 = after.repetitions as u128;
        let total: u128 = n1 + n2;
        if total < 3 {
            return false;
        }
        let df: u128 = total - 2;
        let c: u128 = critical_value_95(df as u64) as u128;
        let diff: i128 = after.value as i128 - before.value as i128;
        let gap: u128 = if diff < 0 {
            (-diff) as u128
        } else {
            diff as u128
        };
        proof {
            lemma_critical_value_bounds(df as nat);
            lemma_product_bound(gap as int, gap as int, 0xFFFF_FFFF_FFFF_FFFF, 0xFFFF_FFFF_FFFF_FFFF);
            assert(gap * gap == diff * diff) by (nonlinear_arith)
                requires
                    gap == diff || gap == -diff,
            ;
            lemma_product_bound(n1 as int, n2 as int, 0xFFFF_FFFF, 0xFFFF_FFFF);
            lemma_product_bound(1000 * df, n1 * n2, 8589934590000, 18446744065119617025);
            lemma_product_bound(n1 - 1, before.variance as int, 0xFFFF_FFFF, 0xFFFF_FFFF_FFFF_FFFF);
            lemma_product_bound(n2 - 1, after.variance as int, 0xFFFF_FFFF, 0xFFFF_FFFF_FFFF_FFFF);
            lemma_product_bound(c as int, c as int, 12706, 12706);
            lemma_product_bound(c * c, total as int, 161442436, 0x1_FFFF_FFFF);
        }
        let gap_squared: u128 = gap * gap;
        let pairs: u128 = n1 * n2;
        let weight: u128 = 1000 * df * pairs;
        let pooled: u128 = (n1 - 1) * (before.variance as u128) + (n2 - 1) * (after.variance as u128);
        let threshold: u128 = c * c * total;
        product_exceeds(gap_squared, weight, pooled, threshold)
    }
}

/// A sample compared with itself has changed by zero percent, provided its
/// mean is not zero (there the change is undefined).
pub proof fn law_no_change_against_itself(a: &BenchCounter)
    requires
        a.value != 0,
    ensures
        BenchCounter::change(a, a) == Some(Percentage { numerator: 0, denominator: a.value }),
        BenchCounter::change(a, a)->0.sign() == 0,
{
}

/// A sample never differs significantly from itself.
pub proof fn law_not_significant_against_itself(a: &BenchCounter)
    ensures
        !BenchCounter::significant(a, a),
{
    law_not_significant_against_equal_means(a, a);
}

/// Exchanging the two samples leaves the verdict of the test as it was.
pub proof fn law_significance_symmetric(before: &BenchCounter, after: &BenchCounter)
    ensures
        BenchCounter::significant(before, after) == BenchCounter::significant(after, before),
{
    assert(BenchCounter::squared_difference(before, after) == BenchCounter::squared_difference(
        after,
        before,
    )) by (nonlinear_arith)
        requires
            BenchCounter::squared_difference(before, after) == (after.value - before.value)
                * (after.value - before.value),
            BenchCounter::squared_difference(after, before) == (before.value - after.value)
                * (before.value - after.value),
    ;
    assert(before.repetitions * after.repetitions == after.repetitions * before.repetitions)
        by (nonlinear_arith);
}

/// Exchanging the two samples turns the sign of the change round, for means
/// that are both above or both below zero.
pub proof fn law_change_sign_reverses(before: &BenchCounter, after: &BenchCounter)
    requires
        (before.value > 0 && after.value > 0) || (before.value < 0 && after.value < 0),
    ensures
        BenchCounter::change(before, after) is Some,
        BenchCounter::change(after, before) is Some,
        BenchCounter::change(before, after)->0.sign() == -BenchCounter::change(after, before)->0.sign(),
{
}

/// Where a difference of means is significant, a difference at least as
/// large is significant too, all else being equal.
pub proof fn law_larger_difference_is_significant(
    before: &BenchCounter,
    near: &BenchCounter,
    far: &BenchCounter,
)
    requires
        near.variance == far.variance,
        near.repetitions == far.repetitions,
        BenchCounter::squared_difference(before, near) <= BenchCounter::squared_difference(
            before,
            far,
        ),
        BenchCounter::significant(before, near),
    ensures
        BenchCounter::significant(before, far),
{
    let df = BenchCounter::degrees_of_freedom(before, near);
    let weight = 1000 * df * (before.repetitions * near.repetitions);
    assert(weight >= 0) by (nonlinear_arith)
        requires
            df >= 1,
            before.repetitions >= 1,
            near.repetitions >= 1,
            weight == 1000 * df * (before.repetitions * near.repetitions),
    ;
    assert(BenchCounter::squared_difference(before, near) * weight
        <= BenchCounter::squared_difference(before, far) * weight) by (nonlinear_arith)
        requires
            BenchCounter::squared_difference(before, near) <= BenchCounter::squared_difference(
                before,
                far,
            ),
            weight >= 0,
    ;
}

/// Exchanging the two samples turns the verdict round, for means that are
/// both above or both below zero: what got worse one way got better the
/// other way, and what is neutral stays so.
pub proof fn law_verdict_reverses(before: &BenchCounter, after: &BenchCounter)
    requires
        (before.value > 0 && after.value > 0) || (before.value < 0 && after.value < 0),
    ensures
        BenchCounter::verdict(after, before) == BenchCounter::verdict(before, after).reversed(),
{
    law_significance_symmetric(before, after);
    law_change_sign_reverses(before, after);
    if BenchCounter::significant(before, after) {
        // A significant change is no change of zero.
        if after.value == before.value {
            law_not_significant_against_equal_means(before, after);
        }
    }
}

/// Samples with the same mean do not differ significantly.
pub proof fn law_not_significant_against_equal_means(before: &BenchCounter, after: &BenchCounter)
    requires
        before.value == after.value,
    ensures
        !BenchCounter::significant(before, after),
{
    let df = BenchCounter::degrees_of_freedom(before, after);
    let c = critical_value_milli(df as nat);
    if before.repetitions >= 1 && after.repetitions >= 1 && df >= 1 {
        let weight = 1000 * df * (before.repetitions * after.repetitions);
        assert(BenchCounter::squared_difference(before, after) * weight == 0) by (nonlinear_arith)
            requires
                BenchCounter::squared_difference(before, after) == 0,
        ;
        let pooled = BenchCounter::pooled_deviations(before, after);
        let threshold = c * c * (before.repetitions + after.repetitions);
        assert(pooled >= 0) by (nonlinear_arith)
            requires
                before.repetitions >= 1,
                after.repetitions >= 1,
                before.variance >= 0,
                after.variance >= 0,
                pooled == (before.repetitions - 1) * before.variance + (after.repetitions - 1)
                    * after.variance,
        ;
        assert(pooled * threshold >= 0) by (nonlinear_arith)
            requires
                pooled >= 0,
                c >= 0,
                before.repetitions + after.repetitions >= 0,
                threshold == c * c * (before.repetitions + after.repetitions),
        ;
    }
}

} // verus!
