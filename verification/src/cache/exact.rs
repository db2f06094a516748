//! What the operations on costs come to in plain arithmetic, over fixed-point numbers
//! that stay in range.

use crate::cache::interp::{LeafMetrics, Metrics4};
use crate::cache::scalar::{Fixed, Scalar, FIXED_ONE};
use crate::cache::slopes::{metric_of, Metric};
use vstd::prelude::*;

verus! {

/// Whether a number of steps is in the range of fixed-point numbers.
pub open spec fn fits(steps: int) -> bool {
    i64::MIN <= steps <= i64::MAX
}

/// A metric in steps.
pub open spec fn steps_of(metrics: Metrics4<Fixed>, metric: Metric) -> int {
    metric_of(metrics, metric).steps as int
}

/// Whether a number of steps is a fraction over `FIXED_ONE` rounded down.
pub open spec fn rounds_down(steps: int, numerator: int) -> bool {
    steps * FIXED_ONE <= numerator < (steps + 1) * FIXED_ONE
}

/// The four metrics are four separate numbers: metrics that agree one by one are the same.
pub proof fn metrics_are_four(a: Metrics4<Fixed>, b: Metrics4<Fixed>)
    requires
        steps_of(a, Metric::Time) == steps_of(b, Metric::Time),
        steps_of(a, Metric::Flops) == steps_of(b, Metric::Flops),
        steps_of(a, Metric::Bytes) == steps_of(b, Metric::Bytes),
        steps_of(a, Metric::Energy) == steps_of(b, Metric::Energy),
    ensures
        a == b,
{
}

/// A blend lies a fraction `t` of the way from one sample to the other, in every metric,
/// inside of zero to one and beyond: it is the exact mean weighted by `1 - t` and `t`,
/// rounded down to a step. At zero and one it is the sample itself.
pub proof fn blend_is_weighted_mean(
    a: Metrics4<Fixed>,
    b: Metrics4<Fixed>,
    t: Fixed,
    metric: Metric,
)
    requires
        fits(steps_of(b, metric) - steps_of(a, metric)),
        fits(((steps_of(b, metric) - steps_of(a, metric)) * t.steps) / FIXED_ONE as int),
        fits(
            steps_of(a, metric) + ((steps_of(b, metric) - steps_of(a, metric)) * t.steps)
                / FIXED_ONE as int,
        ),
    ensures
        rounds_down(
            steps_of(a.blended(b, t), metric),
            steps_of(a, metric) * (FIXED_ONE - t.steps) + steps_of(b, metric) * t.steps,
        ),
        t.steps == 0 ==> steps_of(a.blended(b, t), metric) == steps_of(a, metric),
        t.steps == FIXED_ONE ==> steps_of(a.blended(b, t), metric) == steps_of(b, metric),
{
    let one = FIXED_ONE as int;
    let (x, y, w) = (steps_of(a, metric), steps_of(b, metric), t.steps as int);
    let part = ((y - x) * w) / one;
    assert(steps_of(a.blended(b, t), metric) == x + part);
    assert(part * one <= (y - x) * w < (part + 1) * one) by (nonlinear_arith)
        requires
            part == ((y - x) * w) / one,
            one == 1048576,
    ;
    assert((x + part) * one <= x * (one - w) + y * w < (x + part + 1) * one) by (nonlinear_arith)
        requires
            part * one <= (y - x) * w < (part + 1) * one,
    ;
    if w == 0 {
        assert((y - x) * w == 0) by (nonlinear_arith)
            requires
                w == 0,
        ;
    }
    if w == one {
        assert(part == y - x) by (nonlinear_arith)
            requires
                part == ((y - x) * w) / one,
                w == one,
                one == 1048576,
        ;
    }
}

/// Multiplying every metric by a fraction multiplies it exactly, rounded down to a step.
pub proof fn scaling_multiplies(a: Metrics4<Fixed>, factor: Fixed, metric: Metric)
    requires
        fits((steps_of(a, metric) * factor.steps) / FIXED_ONE as int),
    ensures
        rounds_down(steps_of(a.scaled(factor), metric), steps_of(a, metric) * factor.steps),
{
    let one = FIXED_ONE as int;
    let p = steps_of(a, metric) * factor.steps;
    assert((p / one) * one <= p < (p / one + 1) * one) by (nonlinear_arith)
        requires
            one == 1048576,
    ;
}

/// Adding another sample with a weight adds that multiple of every metric, rounded down.
pub proof fn adding_weighs(a: Metrics4<Fixed>, b: Metrics4<Fixed>, weight: Fixed, metric: Metric)
    requires
        fits((steps_of(b, metric) * weight.steps) / FIXED_ONE as int),
        fits(steps_of(a, metric) + (steps_of(b, metric) * weight.steps) / FIXED_ONE as int),
    ensures
        rounds_down(
            steps_of(a.with_added(b, weight), metric) - steps_of(a, metric),
            steps_of(b, metric) * weight.steps,
        ),
{
    let one = FIXED_ONE as int;
    let p = steps_of(b, metric) * weight.steps;
    assert((p / one) * one <= p < (p / one + 1) * one) by (nonlinear_arith)
        requires
            one == 1048576,
    ;
}

/// A cost that is looked up has no negative metric, and keeps each that is not negative.
pub proof fn lookups_are_not_negative(
    m: Metrics4<Fixed>,
    outside: bool,
    cost: LeafMetrics<Fixed>,
    metric: Metric,
)
    requires
        cost.is_value(m, outside),
    ensures
        steps_of(cost.m, metric) >= 0,
        steps_of(m, metric) >= 0 ==> steps_of(cost.m, metric) == steps_of(m, metric),
        steps_of(m, metric) < 0 ==> steps_of(cost.m, metric) == 0,
{
}

/// Adding a cost to another adds every metric.
pub proof fn joining_adds(a: LeafMetrics<Fixed>, b: LeafMetrics<Fixed>, metric: Metric)
    requires
        fits(steps_of(a.m, metric) + steps_of(b.m, metric)),
    ensures
        steps_of(a.joined(b).m, metric) == steps_of(a.m, metric) + steps_of(b.m, metric),
        a.joined(b).coverage == a.coverage.union(b.coverage),
        a.joined(b).backend_index == a.backend_index,
{
    let v = steps_of(b.m, metric);
    assert((v * FIXED_ONE) / (FIXED_ONE as int) == v);
}

/// Repeating a cost `n` times over multiplies every metric by `n`.
pub proof fn repeating_multiplies(cost: LeafMetrics<Fixed>, n: u64, metric: Metric)
    requires
        fits(n * FIXED_ONE),
        fits(n * steps_of(cost.m, metric)),
    ensures
        steps_of(cost.repeated(Fixed::count_value(n)).m, metric) == n * steps_of(cost.m, metric),
        cost.repeated(Fixed::count_value(n)).coverage == cost.coverage,
        cost.repeated(Fixed::count_value(n)).backend_index == cost.backend_index,
{
    let v = steps_of(cost.m, metric);
    let one = FIXED_ONE as int;
    assert((v * (n * one)) / one == n * v) by (nonlinear_arith)
        requires
            one == 1048576,
    ;
}

/// Sums and differences of fixed-point numbers in range are exact.
pub proof fn sums_are_exact(a: Fixed, b: Fixed)
    ensures
        fits(a.steps + b.steps) ==> a.sum(b).steps == a.steps + b.steps,
        fits(a.steps - b.steps) ==> a.difference(b).steps == a.steps - b.steps,
{
}

} // verus!
