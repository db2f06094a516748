//! What measurements and peak rates come to in plain arithmetic, over fixed-point numbers
//! that stay in range.

use crate::bridge::metrics::{amount, KernelMetrics};
use crate::cache::direct_1d::Cache1DDirect;
use crate::cache::exact::{rounds_down, steps_of};
use crate::cache::interp::Metrics4;
use crate::cache::linear_1d::Cache1DLinear;
use crate::cache::linear_2d::Cache2DLinear;
use crate::cache::linear_3d::Cache3DLinear;
use crate::cache::peak::{peak_of, with_cell, PeakRates};
use crate::cache::scalar::{Fixed, FIXED_ONE};
use crate::cache::slopes::Metric;
use crate::cache::Cache;
use vstd::prelude::*;

verus! {

/// A rate per second over a whole number of seconds is that many times the rate, in
/// units of `scale`, rounded down to a whole unit.
pub proof fn rate_over_seconds_adds_up(rate: Fixed, time_ms: Fixed, seconds: int, scale: u64)
    requires
        rate.steps >= 0,
        seconds >= 0,
        time_ms.steps == 1000 * seconds * FIXED_ONE,
        0 < scale,
        scale * FIXED_ONE <= i64::MAX,
        rate.steps * seconds * scale <= i64::MAX,
    ensures
        rounds_down(amount(rate, time_ms, scale) as int, rate.steps * seconds * scale),
{
    let one = FIXED_ONE as int;
    let k = rate.steps as int;
    let unit = scale as int;
    let product = k * seconds;
    assert(((1000 * seconds * one) * one) / (1000 * one) == seconds * one) by (nonlinear_arith)
        requires
            one == 1048576,
    ;
    assert((k * (seconds * one)) / one == product) by (nonlinear_arith)
        requires
            one == 1048576,
            product == k * seconds,
    ;
    assert(0 <= product <= product * unit) by (nonlinear_arith)
        requires
            product == k * seconds,
            k >= 0,
            seconds >= 0,
            unit >= 1,
    ;
    assert((product * (unit * one)) / one == product * unit) by (nonlinear_arith)
        requires
            one == 1048576,
    ;
    let total = product * unit;
    assert((total / one) * one <= total < (total / one + 1) * one) by (nonlinear_arith)
        requires
            one == 1048576,
    ;
}

/// Whether a rate over some seconds stays in range.
pub open spec fn stays_in_range(rate: Option<Fixed>, seconds: int, scale: u64) -> bool {
    match rate {
        Some(rate) => rate.steps >= 0 && rate.steps * seconds * scale <= i64::MAX,
        None => true,
    }
}

/// A measurement over whole seconds counts its compute rate in units of ten to the
/// twelfth per second, and its traffic in units of ten to the ninth: by the memory rate
/// if there is one, or else by the link rate that counts what the links carry.
pub proof fn samples_add_up(sample: KernelMetrics<Fixed>, seconds: int)
    requires
        seconds >= 0,
        sample.time_ms.steps == 1000 * seconds * FIXED_ONE,
        stays_in_range(sample.tflops, seconds, 1000000000000),
        stays_in_range(sample.memory_bandwidth_gbps, seconds, 1000000000),
        stays_in_range(sample.busbw_gbps, seconds, 1000000000),
    ensures
        match sample.tflops {
            Some(rate) => rounds_down(
                sample.operations() as int,
                rate.steps * seconds * 1000000000000,
            ),
            None => sample.operations() == 0,
        },
        match (sample.memory_bandwidth_gbps, sample.busbw_gbps) {
            (Some(rate), _) => rounds_down(
                sample.traffic() as int,
                rate.steps * seconds * 1000000000,
            ),
            (None, Some(rate)) => rounds_down(
                sample.traffic() as int,
                rate.steps * seconds * 1000000000,
            ),
            (None, None) => sample.traffic() == 0,
        },
{
    if let Some(rate) = sample.tflops {
        rate_over_seconds_adds_up(rate, sample.time_ms, seconds, 1000000000000);
    }
    if let Some(rate) = sample.memory_bandwidth_gbps {
        rate_over_seconds_adds_up(rate, sample.time_ms, seconds, 1000000000);
    }
    if let Some(rate) = sample.busbw_gbps {
        rate_over_seconds_adds_up(rate, sample.time_ms, seconds, 1000000000);
    }
}

/// Whether a number that may be missing is negative.
pub open spec fn is_negative(value: Option<Fixed>) -> bool {
    match value {
        Some(value) => value.steps < 0,
        None => false,
    }
}

/// A measurement is kept exactly if nothing that was measured is negative, and keeps its
/// time, its energy, its operations and its bytes.
pub proof fn samples_are_kept_whole(sample: KernelMetrics<Fixed>)
    ensures
        Metrics4::<Fixed>::kept_sample(sample) is None <==> sample.time_ms.steps < 0
            || sample.energy_j.steps < 0 || is_negative(sample.tflops) || is_negative(
            sample.memory_bandwidth_gbps,
        ) || is_negative(sample.algbw_gbps) || is_negative(sample.busbw_gbps),
        Metrics4::<Fixed>::kept_sample(sample) matches Some(kept) ==> {
            &&& steps_of(kept, Metric::Time) == sample.time_ms.steps
            &&& steps_of(kept, Metric::Energy) == sample.energy_j.steps
            &&& sample.operations() * FIXED_ONE <= i64::MAX ==> steps_of(kept, Metric::Flops)
                == sample.operations() * FIXED_ONE
            &&& sample.traffic() * FIXED_ONE <= i64::MAX ==> steps_of(kept, Metric::Bytes)
                == sample.traffic() * FIXED_ONE
        },
{
}

/// A rate that a table reaches at its best.
pub enum Rate {
    Compute,
    Memory,
    Intensity,
}

/// A best rate in steps.
pub open spec fn rate_of(peak: PeakRates<Fixed>, rate: Rate) -> int {
    match rate {
        Rate::Compute => peak.tflops.steps as int,
        Rate::Memory => peak.gbps.steps as int,
        Rate::Intensity => peak.max_arithmetic_intensity_flops_per_byte.steps as int,
    }
}

/// What a cell's rate counts.
pub open spec fn counted(cell: Metrics4<Fixed>, rate: Rate) -> int {
    match rate {
        Rate::Compute => cell.flops.steps as int,
        Rate::Memory => cell.bytes.steps as int,
        Rate::Intensity => cell.flops.steps as int,
    }
}

/// What a cell's rate counts it over, where its time is a whole number of steps per
/// thousandth: seconds in units of the rate, or bytes.
pub open spec fn counted_over(cell: Metrics4<Fixed>, rate: Rate) -> int {
    match rate {
        Rate::Compute => (cell.time_ms.steps as int / 1000) * 1000000000000,
        Rate::Memory => (cell.time_ms.steps as int / 1000) * 1000000000,
        Rate::Intensity => cell.bytes.steps as int,
    }
}

/// Whether a cell has a rate: it takes time, counts something, and over something.
pub open spec fn has_rate(cell: Metrics4<Fixed>, rate: Rate) -> bool {
    cell.time_ms.steps > 0 && counted(cell, rate) > 0 && counted_over(cell, rate) > 0
}

/// Whether a cell's rates can be told exactly: its time divides into seconds, and no
/// intermediate value leaves the range.
pub open spec fn tells_rates(cell: Metrics4<Fixed>) -> bool {
    let seconds = cell.time_ms.steps as int / 1000;
    cell.time_ms.steps > 0 ==> {
        &&& cell.time_ms.steps as int % 1000 == 0
        &&& cell.flops.steps * FIXED_ONE <= i64::MAX * seconds
        &&& cell.bytes.steps * FIXED_ONE <= i64::MAX * seconds
        &&& cell.bytes.steps > 0 ==> cell.flops.steps * FIXED_ONE <= i64::MAX * cell.bytes.steps
    }
}

/// Whether a rate in steps is the exact quotient, rounded down to a step.
pub open spec fn is_rate(steps: int, cell: Metrics4<Fixed>, rate: Rate) -> bool {
    steps * counted_over(cell, rate) <= counted(cell, rate) * FIXED_ONE < (steps + 1)
        * counted_over(cell, rate)
}

proof fn quotient_of_quotient(n: int, seconds: int, scale: int, one: int)
    requires
        n >= 0,
        seconds > 0,
        scale > 0,
        one > 0,
    ensures
        ((n / seconds) * one) / (scale * one) == (n / seconds) / scale,
        ((n / seconds) / scale) * (seconds * scale) <= n,
        n < ((n / seconds) / scale + 1) * (seconds * scale),
        0 <= (n / seconds) / scale <= n / seconds,
{
    let q = n / seconds;
    let r = q / scale;
    assert(q * seconds <= n < (q + 1) * seconds && 0 <= q) by (nonlinear_arith)
        requires
            q == n / seconds,
            seconds > 0,
            n >= 0,
    ;
    assert(r * scale <= q < (r + 1) * scale && 0 <= r <= q) by (nonlinear_arith)
        requires
            r == q / scale,
            scale > 0,
            q >= 0,
    ;
    assert((q * one) / (scale * one) == r) by (nonlinear_arith)
        requires
            r * scale <= q < (r + 1) * scale,
            scale > 0,
            one > 0,
            r >= 0,
    {
        assert(r * (scale * one) <= q * one);
        assert(q * one < (r + 1) * (scale * one));
        vstd::arithmetic::div_mod::lemma_fundamental_div_mod_converse(
            q * one,
            scale * one,
            r,
            q * one - r * (scale * one),
        );
    }
    assert(r * (seconds * scale) <= n) by (nonlinear_arith)
        requires
            r * scale <= q,
            q * seconds <= n,
            seconds > 0,
    ;
    assert(n < (r + 1) * (seconds * scale)) by (nonlinear_arith)
        requires
            q + 1 <= (r + 1) * scale,
            n < (q + 1) * seconds,
            seconds > 0,
    ;
}

/// One more cell raises a best rate to its own rate, or leaves it.
proof fn one_more_cell(peak: PeakRates<Fixed>, cell: Metrics4<Fixed>, rate: Rate) -> (own: int)
    requires
        tells_rates(cell),
        rate_of(peak, rate) >= 0,
    ensures
        !has_rate(cell, rate) ==> rate_of(with_cell(peak, cell), rate) == rate_of(peak, rate),
        has_rate(cell, rate) ==> is_rate(own, cell, rate) && rate_of(with_cell(peak, cell), rate)
            == if rate_of(peak, rate) <= own {
            own
        } else {
            rate_of(peak, rate)
        },
        own >= 0,
{
    let one = FIXED_ONE as int;
    let time = cell.time_ms.steps as int;
    let seconds = time / 1000;
    if !has_rate(cell, rate) {
        0
    } else {
        let n = counted(cell, rate) * one;
        assert((time * one) / (1000 * one) == seconds) by (nonlinear_arith)
            requires
                seconds == time / 1000,
                one == 1048576,
        ;
        match rate {
            Rate::Intensity => {
                let b = cell.bytes.steps as int;
                let own = n / b;
                assert(own * b <= n < (own + 1) * b && 0 <= own <= i64::MAX) by (nonlinear_arith)
                    requires
                        own == n / b,
                        b > 0,
                        0 <= n <= i64::MAX * b,
                ;
                own
            },
            _ => {
                let scale: int = if rate is Compute {
                    1000000000000
                } else {
                    1000000000
                };
                let q = n / seconds;
                assert(0 <= q <= i64::MAX) by (nonlinear_arith)
                    requires
                        q == n / seconds,
                        seconds > 0,
                        0 <= n <= i64::MAX * seconds,
                ;
                quotient_of_quotient(n, seconds, scale, one);
                q / scale
            },
        }
    }
}

/// The best rate over the kept cells is not passed by any of them, and is reached by one
/// of them, or is zero.
pub proof fn peak_is_the_best_rate(cells: Seq<Option<Metrics4<Fixed>>>, count: int, rate: Rate)
    requires
        0 <= count <= cells.len(),
        forall|i: int|
            0 <= i < count ==> (#[trigger] cells[i] matches Some(cell) ==> tells_rates(cell)),
    ensures
        rate_of(peak_of(cells, count), rate) >= 0,
        forall|i: int|
            0 <= i < count ==> (#[trigger] cells[i] matches Some(cell) ==> has_rate(cell, rate)
                ==> counted(cell, rate) * FIXED_ONE < (rate_of(peak_of(cells, count), rate) + 1)
                * counted_over(cell, rate)),
        rate_of(peak_of(cells, count), rate) == 0 || exists|i: int|
            0 <= i < count && (#[trigger] cells[i] matches Some(cell) && has_rate(cell, rate)
                && is_rate(rate_of(peak_of(cells, count), rate), cell, rate)),
    decreases count,
{
    if count > 0 {
        peak_is_the_best_rate(cells, count - 1, rate);
        let before = rate_of(peak_of(cells, count - 1), rate);
        let after = rate_of(peak_of(cells, count), rate);
        if let Some(last) = cells[count - 1] {
            assert(tells_rates(last));
            let own = one_more_cell(peak_of(cells, count - 1), last, rate);
            assert(after >= before);
            assert forall|i: int| 0 <= i < count implies (#[trigger] cells[i] matches Some(cell)
                ==> has_rate(cell, rate) ==> counted(cell, rate) * FIXED_ONE < (after + 1)
                * counted_over(cell, rate)) by {
                if let Some(cell) = cells[i] {
                    if has_rate(cell, rate) {
                        let low = if i == count - 1 {
                            own
                        } else {
                            before
                        };
                        let over = counted_over(cell, rate);
                        assert((low + 1) * over <= (after + 1) * over) by (nonlinear_arith)
                            requires
                                low <= after,
                                over > 0,
                        ;
                    }
                }
            }
        }
    }
}

/// Merging keeps the better of both rates, each for itself.
pub proof fn merging_keeps_the_better(a: PeakRates<Fixed>, b: PeakRates<Fixed>, rate: Rate)
    ensures
        rate_of(a.merged(b), rate) == if rate_of(a, rate) < rate_of(b, rate) {
            rate_of(b, rate)
        } else {
            rate_of(a, rate)
        },
{
}

/// A table over two axes reports the best rates of its kept cells: none of them passes one,
/// and one of them reaches it, or it is zero.
pub proof fn grid_reports_its_best_rate(table: Cache2DLinear<Fixed>, rate: Rate)
    requires
        forall|i: int|
            0 <= i < table.grid().len() ==> (#[trigger] table.grid()[i] matches Some(cell)
                ==> tells_rates(cell)),
    ensures
        forall|i: int|
            0 <= i < table.grid().len() ==> (#[trigger] table.grid()[i] matches Some(cell)
                ==> has_rate(cell, rate) ==> counted(cell, rate) * FIXED_ONE < (rate_of(
                table.best_rates(),
                rate,
            ) + 1) * counted_over(cell, rate)),
        rate_of(table.best_rates(), rate) == 0 || exists|i: int|
            0 <= i < table.grid().len() && (#[trigger] table.grid()[i] matches Some(cell)
                && has_rate(cell, rate) && is_rate(rate_of(table.best_rates(), rate), cell, rate)),
{
    peak_is_the_best_rate(table.grid(), table.grid().len() as int, rate);
}

/// A table over three axes reports the best rates of its kept cells: none of them passes one,
/// and one of them reaches it, or it is zero.
pub proof fn block_reports_its_best_rate(table: Cache3DLinear<Fixed>, rate: Rate)
    requires
        forall|i: int|
            0 <= i < table.grid().len() ==> (#[trigger] table.grid()[i] matches Some(cell)
                ==> tells_rates(cell)),
    ensures
        forall|i: int|
            0 <= i < table.grid().len() ==> (#[trigger] table.grid()[i] matches Some(cell)
                ==> has_rate(cell, rate) ==> counted(cell, rate) * FIXED_ONE < (rate_of(
                table.best_rates(),
                rate,
            ) + 1) * counted_over(cell, rate)),
        rate_of(table.best_rates(), rate) == 0 || exists|i: int|
            0 <= i < table.grid().len() && (#[trigger] table.grid()[i] matches Some(cell)
                && has_rate(cell, rate) && is_rate(rate_of(table.best_rates(), rate), cell, rate)),
{
    peak_is_the_best_rate(table.grid(), table.grid().len() as int, rate);
}

/// Tables over one axis report no rates.
pub proof fn line_reports_no_rate(
    line: Cache1DLinear<Fixed>,
    buckets: Cache1DDirect<Fixed>,
    rate: Rate,
)
    ensures
        rate_of(line.best_rates(), rate) == 0,
        rate_of(buckets.best_rates(), rate) == 0,
{
}

} // verus!
