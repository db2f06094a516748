//! Direct lookup over one evenly spaced axis.
//!
//! A query reads the bucket it falls into, without interpolation. Past the right end
//! the last bucket is scaled in proportion to the coordinate; before the left end the
//! first bucket is held. Both are flagged. A bucket whose sample was dropped has no
//! value.

use crate::cache::cells::{
    all_name_cells, axis_names_cells, axis_warnings, drop_warnings, drops_name_cells,
    joined_name_cells, kept_time, scan_axis, Cells, FitWarning,
};
use crate::cache::exact::steps_of;
use crate::cache::interp::{LeafMetrics, Metrics4};
use crate::cache::order::{step_between, step_of};
use crate::cache::peak::PeakRates;
use crate::cache::scalar::{in_range, ranks_below, Fixed, NeutralElements, Scalar, FIXED_ONE};
use crate::cache::Cache;
use crate::cache::slopes::Metric;
use vstd::prelude::*;

verus! {

/// A table of evenly spaced buckets.
#[derive(Clone, Debug)]
pub struct Cache1DDirect<S> {
    start: S,
    spacing: S,
    buckets: Cells<S>,
}

/// Whether an axis ascends in equal steps, at least one of them. Steps are taken between
/// the points as they came, and narrowed to be compared.
pub open spec fn is_uniform_axis<S: Scalar>(axis: Seq<S::Wide>) -> bool {
    &&& axis.len() >= 2
    &&& ranks_below(S::zero_value(), step_of::<S>(axis[0], axis[1]))
    &&& forall|i: int|
        0 < i < axis.len() ==> step_of::<S>(axis[i - 1], #[trigger] axis[i]).same_step(
            step_of::<S>(axis[0], axis[1]),
        )
}

/// Whether an axis ascends in equal steps, at least one of them.
pub fn uniform_axis<S: Scalar>(axis: &Vec<S::Wide>) -> (r: bool)
    ensures
        r == is_uniform_axis::<S>(axis@),
{
    if axis.len() < 2 {
        return false;
    }
    let spacing: S = step_between::<S>(axis[0], axis[1]);
    if !S::zero().below(spacing) {
        return false;
    }
    let mut i: usize = 1;
    while i < axis.len()
        invariant
            1 <= i <= axis@.len(),
            spacing == step_of::<S>(axis@[0], axis@[1]),
            forall|j: int|
                0 < j < i ==> step_of::<S>(axis@[j - 1], #[trigger] axis@[j]).same_step(spacing),
        decreases axis@.len() - i,
    {
        if !step_between::<S>(axis[i - 1], axis[i]).is_step(spacing) {
            assert(!step_of::<S>(axis@[i - 1], axis@[i as int]).same_step(spacing));
            return false;
        }
        i += 1;
    }
    true
}

/// The right end of the axis.
pub open spec fn right_end<S: Scalar>(start: S, spacing: S, buckets: int) -> S {
    start.sum(S::count_value((buckets - 1) as u64).product(spacing))
}

/// The bucket that `x` reads, the factor on its metrics, and whether `x` lies off the
/// axis.
pub open spec fn bucket_of<S: Scalar>(start: S, spacing: S, buckets: int, x: S) -> (
    usize,
    S,
    bool,
) {
    let last = buckets - 1;
    let right = right_end(start, spacing, buckets);
    if ranks_below(right, x) {
        (
            last as usize,
            if right.notable() {
                x.quotient(right)
            } else {
                S::one_value()
            },
            true,
        )
    } else {
        let floor = x.difference(start).quotient(spacing).index_value();
        (
            if floor < last {
                floor
            } else {
                last as usize
            },
            S::one_value(),
            ranks_below(x, start),
        )
    }
}

/// A list of the first `count` places.
fn places(count: usize) -> (r: Vec<usize>)
    ensures
        r@.len() == count,
        forall|i: int| 0 <= i < count ==> #[trigger] r@[i] == i,
{
    let mut out: Vec<usize> = Vec::new();
    let mut i: usize = 0;
    while i < count
        invariant
            i <= count,
            out@.len() == i,
            forall|j: int| 0 <= j < i ==> #[trigger] out@[j] == j,
        decreases count - i,
    {
        out.push(i);
        i += 1;
    }
    out
}

impl<S: Scalar> Cache1DDirect<S> {
    pub closed spec fn first(&self) -> S {
        self.start
    }

    pub closed spec fn step(&self) -> S {
        self.spacing
    }

    pub closed spec fn cells(&self) -> Seq<Option<Metrics4<S>>> {
        self.buckets@
    }

    /// Whether the table holds these samples, one bucket each.
    pub open spec fn fits(&self, axis: Seq<S::Wide>, samples: Seq<Option<Metrics4<S>>>) -> bool {
        &&& self.first() == S::narrowed(axis[0])
        &&& self.step() == step_of::<S>(axis[0], axis[1])
        &&& self.cells() == samples
    }

    /// The warnings of fitting the table: dropped samples, then drops in time.
    pub open spec fn fit_warnings(&self) -> Seq<FitWarning> {
        let n = self.cells().len() as int;
        drop_warnings(self.cells()) + axis_warnings(self.cells(), 0, 1, n, n)
    }

    /// Every warning of a fitted table names an empty bucket, or two kept ones of which
    /// the later takes less time.
    pub proof fn warnings_name_cells(&self)
        requires
            self.wf(),
        ensures
            all_name_cells(self.fit_warnings(), self.cells()),
    {
        let cells = self.cells();
        let n = cells.len() as int;
        self.buckets.len_in_range();
        assert(1 * n * 1 == n) by (nonlinear_arith);
        drops_name_cells(cells);
        axis_names_cells(cells, 0, 1, n, 1, n);
        joined_name_cells(drop_warnings(cells), axis_warnings(cells, 0, 1, n, n), cells);
    }

    /// Fit a table to the samples of an evenly spaced sweep; a missing sample leaves its
    /// bucket without a value.
    pub fn from_samples(axis: &Vec<S::Wide>, samples: &Vec<Option<Metrics4<S>>>) -> (r: (
        Self,
        Vec<FitWarning>,
    ))
        requires
            axis@.len() == samples@.len(),
            is_uniform_axis::<S>(axis@),
        ensures
            r.0.wf(),
            r.0.fits(axis@, samples@),
            r.1@ == r.0.fit_warnings(),
    {
        let source: Vec<usize> = places(samples.len());
        let (buckets, mut warnings) = Cells::gather(samples, &source);
        assert(buckets@ =~= samples@);
        assert(1 * samples@.len() * 1 == samples@.len()) by (nonlinear_arith);
        scan_axis(&buckets, 0, 1, samples.len(), Ghost(1), &mut warnings);
        (
            Cache1DDirect {
                start: S::narrow(axis[0]),
                spacing: step_between::<S>(axis[0], axis[1]),
                buckets,
            },
            warnings,
        )
    }

    /// The bucket that `x` reads, the factor on its metrics, and whether `x` lies off
    /// the axis.
    pub fn index(&self, x: S) -> (r: (usize, S, bool))
        requires
            self.wf(),
        ensures
            r == bucket_of(self.first(), self.step(), self.cells().len() as int, x),
            r.0 < self.cells().len(),
    {
        let last: usize = self.buckets.len() - 1;
        let right: S = self.start.plus(S::from_count(last as u64).times(self.spacing));
        if right.below(x) {
            let scale: S = if right.is_notable() {
                x.over(right)
            } else {
                S::one()
            };
            return (last, scale, true);
        }
        let floor: usize = x.minus(self.start).over(self.spacing).as_index();
        let bucket: usize = if floor < last {
            floor
        } else {
            last
        };
        (bucket, S::one(), x.below(self.start))
    }
}

impl<S: Scalar> Cache<S> for Cache1DDirect<S> {
    closed spec fn wf(&self) -> bool {
        self.buckets.wf() && self.buckets@.len() >= 1
    }

    open spec fn arity(&self) -> nat {
        1
    }

    open spec fn reading(&self, sweep: Seq<S>) -> Option<(Metrics4<S>, bool)> {
        let x = sweep[0];
        let (bucket, scale, outside) = bucket_of(
            self.first(),
            self.step(),
            self.cells().len() as int,
            x,
        );
        if x.undefined() {
            None
        } else {
            match self.cells()[bucket as int] {
                Some(metrics) => Some((metrics.scaled(scale), outside)),
                None => None,
            }
        }
    }

    open spec fn best_rates(&self) -> PeakRates<S::Wide> {
        PeakRates::none()
    }

    open spec fn held(&self, cell: int) -> Option<(Seq<S>, Option<S>)> {
        if 0 <= cell < self.cells().len() {
            let x = self.first().sum(S::count_value(cell as u64).product(self.step()));
            Some((seq![x], kept_time(self.cells()[cell])))
        } else {
            None
        }
    }

    fn eval(&self, sweep: &Vec<S>) -> (r: LeafMetrics<S>) {
        let x: S = sweep[0];
        if x.is_nan() {
            return LeafMetrics::miss();
        }
        let (bucket, scale, outside) = self.index(x);
        if !self.buckets.is_valid(bucket) {
            return LeafMetrics::miss();
        }
        let mut m: Metrics4<S> = self.buckets.value(bucket);
        m.scale(scale);
        LeafMetrics::value(m, outside)
    }

    fn peak_rates(&self) -> (r: PeakRates<S::Wide>) {
        PeakRates::zero()
    }

    fn cell(&self, cell: usize) -> (r: Option<(Vec<S>, Option<S>)>) {
        if cell >= self.buckets.len() {
            return None;
        }
        let x: S = self.start.plus(S::from_count(cell as u64).times(self.spacing));
        let coords: Vec<S> = vec![x];
        assert(coords@ =~= seq![x]);
        Some((coords, self.buckets.time(cell)))
    }
}

/// In fixed-point numbers, a query from one point of the axis up to the next reads the
/// bucket of the first of the two as it was measured.
pub proof fn buckets_span_their_step(table: Cache1DDirect<Fixed>, bucket: int, x: Fixed)
    requires
        table.wf(),
        0 <= bucket < table.cells().len(),
        table.step().steps > 0,
        table.first().steps + bucket * table.step().steps <= x.steps,
        x.steps < table.first().steps + (bucket + 1) * table.step().steps,
        x.steps <= table.first().steps + (table.cells().len() - 1) * table.step().steps,
        (table.cells().len() - 1) * FIXED_ONE <= i64::MAX,
        (table.cells().len() - 1) * table.step().steps <= i64::MAX,
        table.first().steps + (table.cells().len() - 1) * table.step().steps <= i64::MAX,
    ensures
        table.reading(seq![x]) == (match table.cells()[bucket] {
            Some(metrics) => Some((metrics, false)),
            None => None,
        }),
{
    let start = table.first().steps as int;
    let step = table.step().steps as int;
    let last = table.cells().len() - 1;
    let one = FIXED_ONE as int;
    let way = x.steps - start;
    table.buckets.len_in_range();
    assert(0 <= bucket * step && 0 <= last * step && 0 <= last * one) by (nonlinear_arith)
        requires
            0 <= bucket,
            0 <= last,
            0 < step,
            one == 1048576,
    ;
    assert(((last * one) * step) / one == last * step) by (nonlinear_arith)
        requires
            one == 1048576,
    ;
    assert(in_range(last * one).steps == last * one);
    assert(right_end(table.first(), table.step(), last + 1).steps == start + last * step);
    let parts = (way * one) / step;
    assert(bucket * one <= parts && parts < (bucket + 1) * one && parts <= last * one)
        by (nonlinear_arith)
        requires
            parts == (way * one) / step,
            bucket * step <= way < (bucket + 1) * step,
            way <= last * step,
            0 < step,
            one == 1048576,
    ;
    assert(0 <= bucket * one) by (nonlinear_arith)
        requires
            0 <= bucket,
            one == 1048576,
    ;
    assert(parts / one == bucket) by (nonlinear_arith)
        requires
            bucket * one <= parts < (bucket + 1) * one,
            one == 1048576,
    ;
    if let Some(metrics) = table.cells()[bucket] {
        Fixed::neutral(metrics.time_ms);
        Fixed::neutral(metrics.flops);
        Fixed::neutral(metrics.bytes);
        Fixed::neutral(metrics.energy_j);
    }
}

/// In fixed-point numbers, a query at a whole multiple of the right end reads that
/// multiple of the last bucket in every metric, flagged: past its last point the table
/// runs through the origin.
pub proof fn reading_grows_past_the_end(
    table: Cache1DDirect<Fixed>,
    times: int,
    x: Fixed,
    last: Metrics4<Fixed>,
    metric: Metric,
)
    requires
        table.wf(),
        table.cells().last() == Some(last),
        table.step().steps >= 0,
        ({
            let right = table.first().steps + (table.cells().len() - 1) * table.step().steps;
            0 < right <= i64::MAX && x.steps == times * right
        }),
        times >= 2,
        times * FIXED_ONE <= i64::MAX,
        (table.cells().len() - 1) * FIXED_ONE <= i64::MAX,
        (table.cells().len() - 1) * table.step().steps <= i64::MAX,
        i64::MIN <= times * steps_of(last, metric) <= i64::MAX,
    ensures
        table.reading(seq![x]) matches Some((metrics, outside)) && outside && steps_of(
            metrics,
            metric,
        ) == times * steps_of(last, metric),
{
    let start = table.first().steps as int;
    let step = table.step().steps as int;
    let end = table.cells().len() - 1;
    let one = FIXED_ONE as int;
    let right = start + end * step;
    table.buckets.len_in_range();
    assert(0 <= end * step && 0 <= end * one) by (nonlinear_arith)
        requires
            0 <= end,
            0 <= step,
            one == 1048576,
    ;
    assert(((end * one) * step) / one == end * step) by (nonlinear_arith)
        requires
            one == 1048576,
    ;
    assert(right_end(table.first(), table.step(), end + 1).steps == right);
    assert(times * right > right && ((times * right) * one) / right == times * one)
        by (nonlinear_arith)
        requires
            times >= 2,
            right > 0,
            one == 1048576,
    ;
    let value = steps_of(last, metric);
    assert((value * (times * one)) / one == times * value) by (nonlinear_arith)
        requires
            one == 1048576,
    ;
}

/// In fixed-point numbers, a query before the first point reads the first bucket as it was
/// measured, flagged.
pub proof fn reading_holds_before_the_start(table: Cache1DDirect<Fixed>, x: Fixed)
    requires
        table.wf(),
        table.step().steps > 0,
        x.steps < table.first().steps,
        (table.cells().len() - 1) * FIXED_ONE <= i64::MAX,
        (table.cells().len() - 1) * table.step().steps <= i64::MAX,
        table.first().steps + (table.cells().len() - 1) * table.step().steps <= i64::MAX,
    ensures
        table.reading(seq![x]) == (match table.cells()[0] {
            Some(metrics) => Some((metrics, true)),
            None => None,
        }),
{
    let start = table.first().steps as int;
    let step = table.step().steps as int;
    let end = table.cells().len() - 1;
    let one = FIXED_ONE as int;
    table.buckets.len_in_range();
    assert(0 <= end * step && 0 <= end * one) by (nonlinear_arith)
        requires
            0 <= end,
            0 < step,
            one == 1048576,
    ;
    assert(((end * one) * step) / one == end * step) by (nonlinear_arith)
        requires
            one == 1048576,
    ;
    assert(right_end(table.first(), table.step(), end + 1).steps == start + end * step);
    let way = in_range(x.steps - start).steps as int;
    assert((way * one) / step < 0) by (nonlinear_arith)
        requires
            way < 0,
            step > 0,
            one == 1048576,
    ;
    if let Some(metrics) = table.cells()[0] {
        Fixed::neutral(metrics.time_ms);
        Fixed::neutral(metrics.flops);
        Fixed::neutral(metrics.bytes);
        Fixed::neutral(metrics.energy_j);
    }
}

} // verus!
