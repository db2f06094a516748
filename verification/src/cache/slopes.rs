//! Slopes of a two-axis table, fitted by least squares over the cells of its top band.
//!
//! The small end of a profile is a plateau of launch overhead that says nothing of the
//! far field, so only cells beyond a fraction of both axes' ends are fitted. Only the
//! slopes are kept: they price the way past the end of the table, where a measured
//! value is extended. A band that cannot pin both slopes down gives none.

use crate::cache::cells::Cells;
use crate::cache::interp::Metrics4;
use crate::cache::scalar::{at_least_zero, floored, ranks_below, wide_at_most, Scalar, Wide};
use vstd::prelude::*;

verus! {

/// What every metric gains per unit of each axis.
#[derive(Clone, Copy, Debug)]
pub struct AxisSlopes<S> {
    pub axis0: Metrics4<S>,
    pub axis1: Metrics4<S>,
}

/// A cell of the band: its coordinates and its metrics.
#[derive(Clone, Copy, Debug)]
pub struct BandCell<S> {
    pub x0: S,
    pub x1: S,
    pub metrics: Metrics4<S>,
}

/// Whether a cell lies in the top band of both axes and was measured.
pub open spec fn in_band<S: Scalar>(
    xs0: Seq<S>,
    xs1: Seq<S>,
    cells: Seq<Option<Metrics4<S>>>,
    cell: int,
) -> bool {
    let columns = xs1.len() as int;
    &&& !ranks_below(xs0[cell / columns], xs0.last().product(S::band_value()))
    &&& !ranks_below(xs1[cell % columns], xs1.last().product(S::band_value()))
    &&& cells[cell] is Some
}

/// The band among the first `count` cells.
pub open spec fn top_band<S: Scalar>(
    xs0: Seq<S>,
    xs1: Seq<S>,
    cells: Seq<Option<Metrics4<S>>>,
    count: int,
) -> Seq<BandCell<S>>
    decreases count,
{
    if count <= 0 {
        seq![]
    } else {
        let earlier = top_band(xs0, xs1, cells, count - 1);
        let columns = xs1.len() as int;
        if in_band(xs0, xs1, cells, count - 1) {
            earlier.push(
                BandCell {
                    x0: xs0[(count - 1) / columns],
                    x1: xs1[(count - 1) % columns],
                    metrics: cells[count - 1]->0,
                },
            )
        } else {
            earlier
        }
    }
}

/// A number of every band cell, in the type that sums are taken in.
pub enum BandTerm {
    X0,
    X1,
    X0X0,
    X1X1,
    X0X1,
}

pub open spec fn band_term<S: Scalar>(cell: BandCell<S>, term: BandTerm) -> S::Wide {
    let x0 = cell.x0.widened();
    let x1 = cell.x1.widened();
    match term {
        BandTerm::X0 => x0,
        BandTerm::X1 => x1,
        BandTerm::X0X0 => x0.product(x0),
        BandTerm::X1X1 => x1.product(x1),
        BandTerm::X0X1 => x0.product(x1),
    }
}

/// The sum of a term over the first `count` band cells.
pub open spec fn term_sum<S: Scalar>(band: Seq<BandCell<S>>, term: BandTerm, count: int) -> S::Wide
    decreases count,
{
    if count <= 0 {
        S::Wide::count_value(0)
    } else {
        term_sum(band, term, count - 1).sum(band_term(band[count - 1], term))
    }
}

/// One of the four metrics.
#[derive(Clone, Copy, Debug, PartialEq, Eq, Structural)]
pub enum Metric {
    Time,
    Flops,
    Bytes,
    Energy,
}

pub open spec fn metric_of<S>(metrics: Metrics4<S>, metric: Metric) -> S {
    match metric {
        Metric::Time => metrics.time_ms,
        Metric::Flops => metrics.flops,
        Metric::Bytes => metrics.bytes,
        Metric::Energy => metrics.energy_j,
    }
}

fn pick<S: Scalar>(metrics: &Metrics4<S>, metric: Metric) -> (r: S)
    ensures
        r == metric_of(*metrics, metric),
{
    match metric {
        Metric::Time => metrics.time_ms,
        Metric::Flops => metrics.flops,
        Metric::Bytes => metrics.bytes,
        Metric::Energy => metrics.energy_j,
    }
}

/// The sums of a metric over the first `count` band cells, plain and weighted by each
/// coordinate.
pub open spec fn observed_sums<S: Scalar>(
    band: Seq<BandCell<S>>,
    metric: Metric,
    count: int,
) -> (S::Wide, S::Wide, S::Wide)
    decreases count,
{
    if count <= 0 {
        (S::Wide::count_value(0), S::Wide::count_value(0), S::Wide::count_value(0))
    } else {
        let rest = observed_sums(band, metric, count - 1);
        let cell = band[count - 1];
        let observed = metric_of(cell.metrics, metric).widened();
        (
            rest.0.sum(observed),
            rest.1.sum(cell.x0.widened().product(observed)),
            rest.2.sum(cell.x1.widened().product(observed)),
        )
    }
}

/// A matrix of three rows.
pub struct Matrix3<W> {
    pub row0: (W, W, W),
    pub row1: (W, W, W),
    pub row2: (W, W, W),
}

/// The determinant, expanded along the first row.
pub open spec fn determinant<W: Wide>(m: Matrix3<W>) -> W {
    let (a, b, c) = m.row0;
    let (d, e, f) = m.row1;
    let (g, h, i) = m.row2;
    a.product(e.product(i).difference(f.product(h))).difference(
        b.product(d.product(i).difference(f.product(g))),
    ).sum(c.product(d.product(h).difference(e.product(g))))
}

pub fn determinant_3x3<W: Wide>(m: &Matrix3<W>) -> (r: W)
    ensures
        r == determinant(*m),
{
    let (a, b, c) = m.row0;
    let (d, e, f) = m.row1;
    let (g, h, i) = m.row2;
    let first: W = a.times(e.times(i).minus(f.times(h)));
    let second: W = b.times(d.times(i).minus(f.times(g)));
    let third: W = c.times(d.times(h).minus(e.times(g)));
    first.minus(second).plus(third)
}

/// The normal matrix of the band for a plane over both coordinates.
pub open spec fn normal_matrix<S: Scalar>(band: Seq<BandCell<S>>) -> Matrix3<S::Wide> {
    let n = band.len() as int;
    let sum0 = term_sum(band, BandTerm::X0, n);
    let sum1 = term_sum(band, BandTerm::X1, n);
    let sum01 = term_sum(band, BandTerm::X0X1, n);
    Matrix3 {
        row0: (S::Wide::count_value(n as u64), sum0, sum1),
        row1: (sum0, term_sum(band, BandTerm::X0X0, n), sum01),
        row2: (sum1, sum01, term_sum(band, BandTerm::X1X1, n)),
    }
}

/// Whether the normal matrix cannot pin the plane down: its determinant is negligible
/// against what its entries could support.
pub open spec fn is_degenerate<W: Wide>(m: Matrix3<W>) -> bool {
    let det = determinant(m);
    !det.finite() || wide_at_most(
        det.magnitude(),
        W::step_value().product(m.row0.0).product(m.row1.1).product(m.row2.2),
    )
}

/// The slope that a replaced column gives; none that falls or is not finite.
pub open spec fn slope_of<S: Scalar>(replaced: Matrix3<S::Wide>, det: S::Wide) -> S {
    let slope = S::narrowed(determinant(replaced).quotient(det));
    if slope.finite() {
        floored(slope)
    } else {
        S::zero_value()
    }
}

/// The normal matrix with the observations in its second or third column.
pub open spec fn with_column<W: Wide>(m: Matrix3<W>, axis: int, rhs: (W, W, W)) -> Matrix3<W> {
    if axis == 0 {
        Matrix3 {
            row0: (m.row0.0, rhs.0, m.row0.2),
            row1: (m.row1.0, rhs.1, m.row1.2),
            row2: (m.row2.0, rhs.2, m.row2.2),
        }
    } else {
        Matrix3 {
            row0: (m.row0.0, m.row0.1, rhs.0),
            row1: (m.row1.0, m.row1.1, rhs.1),
            row2: (m.row2.0, m.row2.1, rhs.2),
        }
    }
}

/// The slope of one metric along one axis.
pub open spec fn fitted_slope<S: Scalar>(band: Seq<BandCell<S>>, metric: Metric, axis: int) -> S {
    let m = normal_matrix(band);
    let rhs = observed_sums(band, metric, band.len() as int);
    slope_of(with_column(m, axis, rhs), determinant(m))
}

pub open spec fn fitted_axis<S: Scalar>(band: Seq<BandCell<S>>, axis: int) -> Metrics4<S> {
    Metrics4 {
        time_ms: fitted_slope(band, Metric::Time, axis),
        flops: fitted_slope(band, Metric::Flops, axis),
        bytes: fitted_slope(band, Metric::Bytes, axis),
        energy_j: fitted_slope(band, Metric::Energy, axis),
    }
}

/// The slopes of a band: none from fewer than three cells or a degenerate band.
pub open spec fn band_slopes<S: Scalar>(band: Seq<BandCell<S>>) -> Option<AxisSlopes<S>> {
    if band.len() < 3 || is_degenerate(normal_matrix(band)) {
        None
    } else {
        Some(AxisSlopes { axis0: fitted_axis(band, 0), axis1: fitted_axis(band, 1) })
    }
}

/// The slopes of a table.
pub open spec fn table_slopes<S: Scalar>(
    xs0: Seq<S>,
    xs1: Seq<S>,
    cells: Seq<Option<Metrics4<S>>>,
) -> Option<AxisSlopes<S>> {
    band_slopes(top_band(xs0, xs1, cells, cells.len() as int))
}

/// No fitted slope falls: extending a table by its slopes never takes work away.
pub proof fn slopes_never_fall<S: Scalar>(band: Seq<BandCell<S>>, metric: Metric, axis: int)
    requires
        !S::zero_value().undefined(),
    ensures
        fitted_slope(band, metric, axis).rank() >= S::zero_value().rank(),
{
}

fn collect_band<S: Scalar>(xs0: &Vec<S>, xs1: &Vec<S>, cells: &Cells<S>) -> (r: Vec<BandCell<S>>)
    requires
        cells.wf(),
        xs0@.len() > 0,
        xs1@.len() > 0,
        cells@.len() == xs0@.len() * xs1@.len(),
        cells@.len() <= usize::MAX,
    ensures
        r@ == top_band(xs0@, xs1@, cells@, cells@.len() as int),
        r@.len() <= cells@.len(),
{
    let columns: usize = xs1.len();
    let floor0: S = xs0[xs0.len() - 1].times(S::band_fraction());
    let floor1: S = xs1[columns - 1].times(S::band_fraction());
    let mut band: Vec<BandCell<S>> = Vec::new();
    let mut k: usize = 0;
    assert(band@ =~= seq![]);
    while k < cells.len()
        invariant
            cells.wf(),
            k <= cells@.len() <= usize::MAX,
            columns == xs1@.len(),
            columns > 0,
            cells@.len() == xs0@.len() * xs1@.len(),
            floor0 == xs0@.last().product(S::band_value()),
            floor1 == xs1@.last().product(S::band_value()),
            band@ == top_band(xs0@, xs1@, cells@, k as int),
            band@.len() <= k,
        decreases cells@.len() - k,
    {
        assert(k / columns < xs0@.len()) by (nonlinear_arith)
            requires
                k < xs0@.len() * columns,
                columns > 0,
        ;
        let x0: S = xs0[k / columns];
        let x1: S = xs1[k % columns];
        if !x0.below(floor0) && !x1.below(floor1) && cells.is_valid(k) {
            band.push(BandCell { x0, x1, metrics: cells.value(k) });
        }
        k += 1;
    }
    band
}

fn normal_of<S: Scalar>(band: &Vec<BandCell<S>>) -> (r: Matrix3<S::Wide>)
    requires
        band@.len() <= u64::MAX,
    ensures
        r == normal_matrix(band@),
{
    let mut sum0: S::Wide = S::Wide::from_count(0);
    let mut sum1: S::Wide = S::Wide::from_count(0);
    let mut sum00: S::Wide = S::Wide::from_count(0);
    let mut sum11: S::Wide = S::Wide::from_count(0);
    let mut sum01: S::Wide = S::Wide::from_count(0);
    let mut k: usize = 0;
    while k < band.len()
        invariant
            k <= band@.len(),
            sum0 == term_sum(band@, BandTerm::X0, k as int),
            sum1 == term_sum(band@, BandTerm::X1, k as int),
            sum00 == term_sum(band@, BandTerm::X0X0, k as int),
            sum11 == term_sum(band@, BandTerm::X1X1, k as int),
            sum01 == term_sum(band@, BandTerm::X0X1, k as int),
        decreases band@.len() - k,
    {
        let x0: S::Wide = band[k].x0.widen();
        let x1: S::Wide = band[k].x1.widen();
        sum0 = sum0.plus(x0);
        sum1 = sum1.plus(x1);
        sum00 = sum00.plus(x0.times(x0));
        sum11 = sum11.plus(x1.times(x1));
        sum01 = sum01.plus(x0.times(x1));
        k += 1;
    }
    Matrix3 {
        row0: (S::Wide::from_count(band.len() as u64), sum0, sum1),
        row1: (sum0, sum00, sum01),
        row2: (sum1, sum01, sum11),
    }
}

fn observe<S: Scalar>(band: &Vec<BandCell<S>>, metric: Metric) -> (r: (S::Wide, S::Wide, S::Wide))
    ensures
        r == observed_sums(band@, metric, band@.len() as int),
{
    let mut sum: S::Wide = S::Wide::from_count(0);
    let mut along0: S::Wide = S::Wide::from_count(0);
    let mut along1: S::Wide = S::Wide::from_count(0);
    let mut k: usize = 0;
    while k < band.len()
        invariant
            k <= band@.len(),
            (sum, along0, along1) == observed_sums(band@, metric, k as int),
        decreases band@.len() - k,
    {
        let observed: S::Wide = pick(&band[k].metrics, metric).widen();
        sum = sum.plus(observed);
        along0 = along0.plus(band[k].x0.widen().times(observed));
        along1 = along1.plus(band[k].x1.widen().times(observed));
        k += 1;
    }
    (sum, along0, along1)
}

fn solve<S: Scalar>(replaced: &Matrix3<S::Wide>, det: S::Wide) -> (r: S)
    ensures
        r == slope_of::<S>(*replaced, det),
{
    let slope: S = S::narrow(determinant_3x3(replaced).over(det));
    if slope.is_finite() {
        at_least_zero(slope)
    } else {
        S::zero()
    }
}

/// The slopes of one metric along both axes.
fn fit_metric<S: Scalar>(
    band: &Vec<BandCell<S>>,
    m: &Matrix3<S::Wide>,
    det: S::Wide,
    metric: Metric,
) -> (r: (S, S))
    requires
        *m == normal_matrix(band@),
        det == determinant(*m),
    ensures
        r.0 == fitted_slope(band@, metric, 0),
        r.1 == fitted_slope(band@, metric, 1),
{
    let rhs = observe(band, metric);
    let first = Matrix3 {
        row0: (m.row0.0, rhs.0, m.row0.2),
        row1: (m.row1.0, rhs.1, m.row1.2),
        row2: (m.row2.0, rhs.2, m.row2.2),
    };
    let second = Matrix3 {
        row0: (m.row0.0, m.row0.1, rhs.0),
        row1: (m.row1.0, m.row1.1, rhs.1),
        row2: (m.row2.0, m.row2.1, rhs.2),
    };
    (solve::<S>(&first, det), solve::<S>(&second, det))
}

/// The slopes of a table, if its top band pins them down.
pub fn fit_axis_slopes<S: Scalar>(xs0: &Vec<S>, xs1: &Vec<S>, cells: &Cells<S>) -> (r: Option<
    AxisSlopes<S>,
>)
    requires
        cells.wf(),
        xs0@.len() > 0,
        xs1@.len() > 0,
        cells@.len() == xs0@.len() * xs1@.len(),
        cells@.len() <= usize::MAX,
    ensures
        r == table_slopes(xs0@, xs1@, cells@),
{
    let band: Vec<BandCell<S>> = collect_band(xs0, xs1, cells);
    if band.len() < 3 {
        return None;
    }
    let m: Matrix3<S::Wide> = normal_of(&band);
    let det: S::Wide = determinant_3x3(&m);
    let support: S::Wide = S::Wide::epsilon().times(m.row0.0).times(m.row1.1).times(m.row2.2);
    if !det.is_finite() || det.abs().at_most(support) {
        return None;
    }
    let time = fit_metric(&band, &m, det, Metric::Time);
    let flops = fit_metric(&band, &m, det, Metric::Flops);
    let bytes = fit_metric(&band, &m, det, Metric::Bytes);
    let energy = fit_metric(&band, &m, det, Metric::Energy);
    Some(
        AxisSlopes {
            axis0: Metrics4 {
                time_ms: time.0,
                flops: flops.0,
                bytes: bytes.0,
                energy_j: energy.0,
            },
            axis1: Metrics4 {
                time_ms: time.1,
                flops: flops.1,
                bytes: bytes.1,
                energy_j: energy.1,
            },
        },
    )
}

} // verus!
