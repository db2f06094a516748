//! The best rates that any cell of a table reached.

use crate::cache::cells::Cells;
use crate::cache::interp::Metrics4;
use crate::cache::scalar::{wide_at_most, Scalar, Wide};
use vstd::prelude::*;

verus! {

/// The fastest compute rate, the fastest bandwidth and the highest arithmetic
/// intensity over a table's cells.
#[derive(Clone, Copy, Debug)]
pub struct PeakRates<W> {
    pub tflops: W,
    pub gbps: W,
    pub max_arithmetic_intensity_flops_per_byte: W,
}

/// The second number where it is at least the first.
pub open spec fn larger<W: Wide>(a: W, b: W) -> W {
    if wide_at_most(a, b) {
        b
    } else {
        a
    }
}

fn larger_of<W: Wide>(a: W, b: W) -> (r: W)
    ensures
        r == larger(a, b),
{
    if a.at_most(b) {
        b
    } else {
        a
    }
}

/// Whether a number counts: finite and above zero.
pub open spec fn counts<W: Wide>(value: W) -> bool {
    value.finite() && !wide_at_most(value, W::count_value(0))
}

fn is_counted<W: Wide>(value: W) -> (r: bool)
    ensures
        r == counts(value),
{
    value.is_finite() && !value.at_most(W::from_count(0))
}

impl<W: Wide> PeakRates<W> {
    pub open spec fn none() -> Self {
        PeakRates {
            tflops: W::count_value(0),
            gbps: W::count_value(0),
            max_arithmetic_intensity_flops_per_byte: W::count_value(0),
        }
    }

    /// The rates of no cells.
    pub fn zero() -> (r: Self)
        ensures
            r == Self::none(),
    {
        PeakRates {
            tflops: W::from_count(0),
            gbps: W::from_count(0),
            max_arithmetic_intensity_flops_per_byte: W::from_count(0),
        }
    }

    pub open spec fn merged(self, other: Self) -> Self {
        PeakRates {
            tflops: larger(self.tflops, other.tflops),
            gbps: larger(self.gbps, other.gbps),
            max_arithmetic_intensity_flops_per_byte: larger(
                self.max_arithmetic_intensity_flops_per_byte,
                other.max_arithmetic_intensity_flops_per_byte,
            ),
        }
    }

    /// The better of both, rate by rate.
    pub fn merge(self, other: Self) -> (r: Self)
        ensures
            r == self.merged(other),
    {
        PeakRates {
            tflops: larger_of(self.tflops, other.tflops),
            gbps: larger_of(self.gbps, other.gbps),
            max_arithmetic_intensity_flops_per_byte: larger_of(
                self.max_arithmetic_intensity_flops_per_byte,
                other.max_arithmetic_intensity_flops_per_byte,
            ),
        }
    }
}

/// The rates with those of one more cell. A cell counts only if its time does; a cell
/// without arithmetic adds no compute rate, one without traffic no bandwidth.
pub open spec fn with_cell<S: Scalar>(
    peak: PeakRates<S::Wide>,
    cell: Metrics4<S>,
) -> PeakRates<S::Wide> {
    let time = cell.time_ms.widened();
    let flops = cell.flops.widened();
    let bytes = cell.bytes.widened();
    let secs = time.quotient(S::Wide::count_value(1000));
    if !counts(time) {
        peak
    } else {
        PeakRates {
            tflops: if counts(flops) {
                larger(
                    peak.tflops,
                    flops.quotient(secs).quotient(S::Wide::count_value(1000000000000)),
                )
            } else {
                peak.tflops
            },
            gbps: if counts(bytes) {
                larger(peak.gbps, bytes.quotient(secs).quotient(S::Wide::count_value(1000000000)))
            } else {
                peak.gbps
            },
            max_arithmetic_intensity_flops_per_byte: if counts(bytes) && counts(flops) {
                larger(peak.max_arithmetic_intensity_flops_per_byte, flops.quotient(bytes))
            } else {
                peak.max_arithmetic_intensity_flops_per_byte
            },
        }
    }
}

/// The rates over the first `count` cells; dropped cells do not count.
pub open spec fn peak_of<S: Scalar>(cells: Seq<Option<Metrics4<S>>>, count: int) -> PeakRates<
    S::Wide,
>
    decreases count,
{
    if count <= 0 {
        PeakRates::none()
    } else {
        let rest = peak_of(cells, count - 1);
        match cells[count - 1] {
            Some(cell) => with_cell(rest, cell),
            None => rest,
        }
    }
}

fn include_cell<S: Scalar>(peak: PeakRates<S::Wide>, cell: &Metrics4<S>) -> (r: PeakRates<S::Wide>)
    ensures
        r == with_cell(peak, *cell),
{
    let time: S::Wide = cell.time_ms.widen();
    if !is_counted(time) {
        return peak;
    }
    let flops: S::Wide = cell.flops.widen();
    let bytes: S::Wide = cell.bytes.widen();
    let secs: S::Wide = time.over(S::Wide::from_count(1000));
    let mut r = peak;
    if is_counted(flops) {
        r.tflops = larger_of(
            peak.tflops,
            flops.over(secs).over(S::Wide::from_count(1000000000000)),
        );
    }
    if is_counted(bytes) {
        r.gbps = larger_of(peak.gbps, bytes.over(secs).over(S::Wide::from_count(1000000000)));
        if is_counted(flops) {
            r.max_arithmetic_intensity_flops_per_byte = larger_of(
                peak.max_arithmetic_intensity_flops_per_byte,
                flops.over(bytes),
            );
        }
    }
    r
}

/// The best rates over the cells of a table.
pub fn peak_over_cells<S: Scalar>(cells: &Cells<S>) -> (r: PeakRates<S::Wide>)
    requires
        cells.wf(),
    ensures
        r == peak_of(cells@, cells@.len() as int),
{
    let mut peak: PeakRates<S::Wide> = PeakRates::zero();
    let mut k: usize = 0;
    while k < cells.len()
        invariant
            cells.wf(),
            k <= cells@.len(),
            peak == peak_of(cells@, k as int),
        decreases cells@.len() - k,
    {
        if cells.is_valid(k) {
            let cell = cells.value(k);
            peak = include_cell(peak, &cell);
        }
        k += 1;
    }
    peak
}

} // verus!
