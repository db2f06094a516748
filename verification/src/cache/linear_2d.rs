//! Bilinear interpolation over a rectangular grid of two axes.

use crate::cache::cells::{
    all_name_cells, any_present, axis_names_cells, axis_warnings, drop_warnings, drops_name_cells,
    gathered, joined_name_cells, kept_time, scan_axis, Cells, FitWarning,
};
use crate::cache::corners::{
    blend_corners, blended_corners, lone_blend, on_table, take_nearest, Corner,
};
use crate::cache::interp::{
    all_defined, in_order, locate, located, located_at_point, well_spaced, LeafMetrics, Located,
    Metrics4,
};
use crate::cache::order::{
    all_points_defined, arrange_narrowed, arranged, is_stable_order, lists_first, narrowed_points,
    sort_order, stable_order,
};
use crate::cache::peak::{peak_of, peak_over_cells, PeakRates};
use crate::cache::scalar::{
    at_least_zero, confine, confined, floored, ranks_below, Fixed, NeutralElements, Scalar,
    FIXED_ONE,
};
use crate::cache::slopes::{
    fit_axis_slopes, fitted_axis, fitted_slope, metric_of, slopes_never_fall, table_slopes,
    top_band, AxisSlopes, Metric,
};
use crate::cache::{Cache, Extrapolation};
use vstd::prelude::*;

verus! {

/// A table over two axes. The points of both ascend; cells stand in row-major order.
#[derive(Clone, Debug)]
pub struct Cache2DLinear<S> {
    xs0: Vec<S>,
    xs1: Vec<S>,
    cells: Cells<S>,
    extrapolation: Extrapolation,
    slopes: Option<AxisSlopes<S>>,
}

/// Which sample goes into each cell when the axes are put in the given orders.
pub open spec fn source_2d(order0: Seq<usize>, order1: Seq<usize>) -> Seq<usize> {
    let columns = order1.len() as int;
    Seq::new(
        order0.len() * order1.len(),
        |k: int| (order0[k / columns] * columns + order1[k % columns]) as usize,
    )
}

fn sources(order0: &Vec<usize>, order1: &Vec<usize>) -> (r: Vec<usize>)
    requires
        lists_first(order0@, order0@.len() as int),
        lists_first(order1@, order1@.len() as int),
        order0@.len() * order1@.len() <= usize::MAX,
    ensures
        r@ == source_2d(order0@, order1@),
        forall|k: int| 0 <= k < r@.len() ==> #[trigger] r@[k] < order0@.len() * order1@.len(),
{
    let rows: usize = order0.len();
    let columns: usize = order1.len();
    let mut out: Vec<usize> = Vec::new();
    let mut k: usize = 0;
    while k < rows * columns
        invariant
            lists_first(order0@, order0@.len() as int),
            lists_first(order1@, order1@.len() as int),
            rows == order0@.len(),
            columns == order1@.len(),
            k <= rows * columns,
            rows * columns <= usize::MAX,
            out@.len() == k,
            forall|j: int|
                0 <= j < k ==> #[trigger] out@[j] == (order0@[j / (columns as int)] * columns
                    + order1@[j % (columns as int)]) as usize && out@[j] < rows * columns,
        decreases rows * columns - k,
    {
        assert(columns > 0 && k / columns < rows) by (nonlinear_arith)
            requires
                0 <= k < rows * columns,
                columns >= 0,
        ;
        let i: usize = order0[k / columns];
        let j: usize = order1[k % columns];
        assert(i < rows && j < columns) by {
            assert(order0@[k as int / columns as int] < rows);
            assert(order1@[k as int % columns as int] < columns);
        }
        assert(0 <= i * columns && i * columns + j < rows * columns) by (nonlinear_arith)
            requires
                0 <= i < rows,
                0 <= j < columns,
        ;
        out.push(i * columns + j);
        k += 1;
    }
    assert(out@ =~= source_2d(order0@, order1@));
    out
}

/// The four corners around a query and their bilinear weights.
pub open spec fn corners_2d<S: Scalar>(
    a: Located<S>,
    b: Located<S>,
    columns: int,
) -> Seq<Corner<S>> {
    let rest0 = S::one_value().difference(a.t);
    let rest1 = S::one_value().difference(b.t);
    seq![
        (Corner { cell: (a.low * columns + b.low) as usize, weight: rest0.product(rest1) }),
        (Corner { cell: (a.low * columns + b.high) as usize, weight: rest0.product(b.t) }),
        (Corner { cell: (a.high * columns + b.low) as usize, weight: a.t.product(rest1) }),
        (Corner { cell: (a.high * columns + b.high) as usize, weight: a.t.product(b.t) }),
    ]
}

/// How far a query lies from a point of its segment, in widths of the segment.
pub open spec fn distance_along<S: Scalar>(xs: Seq<S>, at: Located<S>, x: S, point: usize) -> S {
    let width = xs[at.high as int].difference(xs[at.low as int]);
    if width.tiny() {
        S::zero_value()
    } else {
        x.difference(xs[point as int]).quotient(width)
    }
}

pub open spec fn squared<S: Scalar>(value: S) -> S {
    value.product(value)
}

/// The squared distances of a query from its four corners.
pub open spec fn distances_2d<S: Scalar>(
    xs0: Seq<S>,
    xs1: Seq<S>,
    a: Located<S>,
    b: Located<S>,
    x0: S,
    x1: S,
) -> Seq<S> {
    let low0 = squared(distance_along(xs0, a, x0, a.low));
    let high0 = squared(distance_along(xs0, a, x0, a.high));
    let low1 = squared(distance_along(xs1, b, x1, b.low));
    let high1 = squared(distance_along(xs1, b, x1, b.high));
    seq![low0.sum(low1), low0.sum(high1), high0.sum(low1), high0.sum(high1)]
}

/// The bilinear surface at a point, extended past the ends of the grid by its own
/// weights.
pub open spec fn bilinear<S: Scalar>(
    xs0: Seq<S>,
    xs1: Seq<S>,
    cells: Seq<Option<Metrics4<S>>>,
    x0: S,
    x1: S,
) -> (Metrics4<S>, bool) {
    let a = located(xs0, x0);
    let b = located(xs1, x1);
    blended_corners(
        cells,
        corners_2d(a, b, xs1.len() as int),
        distances_2d(xs0, xs1, a, b, x0, x1),
        a.outside || b.outside,
    )
}

/// Whether a coordinate lies past either end of an axis.
pub open spec fn past_ends<S: Scalar>(xs: Seq<S>, x: S) -> bool {
    ranks_below(x, xs[0]) || ranks_below(xs.last(), x)
}

/// The boundary value extended by the slopes: each axis adds what it overshoots its
/// end by, on its own.
pub open spec fn extended<S: Scalar>(
    boundary: Metrics4<S>,
    slopes: AxisSlopes<S>,
    overshoot0: S,
    overshoot1: S,
) -> Metrics4<S> {
    boundary.with_added(slopes.axis0, floored(overshoot0)).with_added(
        slopes.axis1,
        floored(overshoot1),
    )
}

/// The value of a table under its policy.
pub open spec fn policy_reading<S: Scalar>(
    xs0: Seq<S>,
    xs1: Seq<S>,
    cells: Seq<Option<Metrics4<S>>>,
    policy: Extrapolation,
    slopes: Option<AxisSlopes<S>>,
    x0: S,
    x1: S,
) -> (Metrics4<S>, bool) {
    if policy == Extrapolation::Product {
        bilinear(xs0, xs1, cells, x0, x1)
    } else {
        let at0 = confined(x0, xs0[0], xs0.last());
        let at1 = confined(x1, xs1[0], xs1.last());
        let (boundary, leans) = bilinear(xs0, xs1, cells, at0, at1);
        if !past_ends(xs0, x0) && !past_ends(xs1, x1) {
            (boundary, leans)
        } else {
            match slopes {
                Some(slopes) => (
                    extended(
                        boundary,
                        slopes,
                        x0.difference(xs0.last()),
                        x1.difference(xs1.last()),
                    ),
                    true,
                ),
                None => (boundary, true),
            }
        }
    }
}

/// Inside the grid all policies agree, on the value and on whether it leans on a dropped
/// sample: the policy only governs where the table ends.
pub proof fn policies_agree_inside<S: Scalar>(
    xs0: Seq<S>,
    xs1: Seq<S>,
    cells: Seq<Option<Metrics4<S>>>,
    policy: Extrapolation,
    slopes: Option<AxisSlopes<S>>,
    x0: S,
    x1: S,
)
    requires
        0 < xs0.len() <= usize::MAX,
        0 < xs1.len() <= usize::MAX,
        all_defined(xs0),
        all_defined(xs1),
        !x0.undefined(),
        !x1.undefined(),
        !past_ends(xs0, x0),
        !past_ends(xs1, x1),
    ensures
        policy_reading(xs0, xs1, cells, policy, slopes, x0, x1) == bilinear(
            xs0,
            xs1,
            cells,
            x0,
            x1,
        ),
{
}

/// Holding the boundary: off the grid, a table that clamps reads what it reads at the
/// nearest point of the grid, and flags it.
pub proof fn clamp_holds_boundary<S: Scalar>(
    xs0: Seq<S>,
    xs1: Seq<S>,
    cells: Seq<Option<Metrics4<S>>>,
    x0: S,
    x1: S,
)
    requires
        past_ends(xs0, x0) || past_ends(xs1, x1),
    ensures
        policy_reading(xs0, xs1, cells, Extrapolation::Clamp, None, x0, x1) == (
            bilinear(
                xs0,
                xs1,
                cells,
                confined(x0, xs0[0], xs0.last()),
                confined(x1, xs1[0], xs1.last()),
            ).0,
            true,
        ),
{
}

/// A weighted table whose slopes could not be fitted behaves as one that clamps.
pub proof fn unfitted_weighted_clamps<S: Scalar>(
    xs0: Seq<S>,
    xs1: Seq<S>,
    cells: Seq<Option<Metrics4<S>>>,
    x0: S,
    x1: S,
)
    ensures
        policy_reading(xs0, xs1, cells, Extrapolation::Weighted, None, x0, x1) == policy_reading(
            xs0,
            xs1,
            cells,
            Extrapolation::Clamp,
            None,
            x0,
            x1,
        ),
{
}

/// What a metric of a fixed-point table gains by an overshoot, in steps.
pub open spec fn gained(slope: Fixed, overshoot: Fixed) -> int {
    slope.product(overshoot).steps as int
}

/// The gains past both ends of a table are the sum of the gains past either, and none is
/// a loss.
pub open spec fn gains_add_up(corner: Fixed, past0: Fixed, past1: Fixed, past_both: Fixed) -> bool {
    &&& past0.steps >= corner.steps
    &&& past1.steps >= corner.steps
    &&& past_both.steps - corner.steps == (past0.steps - corner.steps) + (past1.steps
        - corner.steps)
}

/// A fixed-point reading far past both ends of a weighted table adds up: what it gains
/// over the table's last corner is the sum of what it gains past either end alone, in
/// every metric, and no gain is negative. Left out are overshoots that take a coordinate
/// or a metric past the largest number.
pub proof fn overshoots_add_up(
    xs0: Seq<Fixed>,
    xs1: Seq<Fixed>,
    cells: Seq<Option<Metrics4<Fixed>>>,
    overshoot0: Fixed,
    overshoot1: Fixed,
    metric: Metric,
)
    requires
        xs0.len() > 0,
        xs1.len() > 0,
        in_order(xs0),
        in_order(xs1),
        overshoot0.steps >= 0,
        overshoot1.steps >= 0,
        xs0.last().steps + overshoot0.steps <= i64::MAX,
        xs1.last().steps + overshoot1.steps <= i64::MAX,
        table_slopes(xs0, xs1, cells) matches Some(slopes) ==> metric_of(
            bilinear(xs0, xs1, cells, xs0.last(), xs1.last()).0,
            metric,
        ).steps + gained(metric_of(slopes.axis0, metric), overshoot0) + gained(
            metric_of(slopes.axis1, metric),
            overshoot1,
        ) <= i64::MAX,
    ensures
        ({
            let at = |x0: Fixed, x1: Fixed|
                metric_of(
                    policy_reading(
                        xs0,
                        xs1,
                        cells,
                        Extrapolation::Weighted,
                        table_slopes(xs0, xs1, cells),
                        x0,
                        x1,
                    ).0,
                    metric,
                );
            let end0 = xs0.last();
            let end1 = xs1.last();
            gains_add_up(
                at(end0, end1),
                at(end0.sum(overshoot0), end1),
                at(end0, end1.sum(overshoot1)),
                at(end0.sum(overshoot0), end1.sum(overshoot1)),
            )
        }),
{
    let nothing = Fixed::zero_value();
    match table_slopes(xs0, xs1, cells) {
        Some(slopes) => {
            fitted_slopes_never_fall(xs0, xs1, cells, metric);
            gain_is_no_loss(metric_of(slopes.axis0, metric), overshoot0);
            gain_is_no_loss(metric_of(slopes.axis1, metric), overshoot1);
            nothing_gained(metric_of(slopes.axis0, metric));
            nothing_gained(metric_of(slopes.axis1, metric));
        },
        None => {},
    }
    assert(xs0.last().sum(nothing) == xs0.last());
    assert(xs1.last().sum(nothing) == xs1.last());
    overshoot_steps(xs0, xs1, cells, nothing, nothing, metric);
    overshoot_steps(xs0, xs1, cells, overshoot0, nothing, metric);
    overshoot_steps(xs0, xs1, cells, nothing, overshoot1, metric);
    overshoot_steps(xs0, xs1, cells, overshoot0, overshoot1, metric);
}

/// A weighted reading at or past both ends of a table, in steps: what the table reads at
/// its last corner, and what either overshoot gains.
pub proof fn overshoot_steps(
    xs0: Seq<Fixed>,
    xs1: Seq<Fixed>,
    cells: Seq<Option<Metrics4<Fixed>>>,
    overshoot0: Fixed,
    overshoot1: Fixed,
    metric: Metric,
)
    requires
        xs0.len() > 0,
        xs1.len() > 0,
        in_order(xs0),
        in_order(xs1),
        overshoot0.steps >= 0,
        overshoot1.steps >= 0,
        xs0.last().steps + overshoot0.steps <= i64::MAX,
        xs1.last().steps + overshoot1.steps <= i64::MAX,
        table_slopes(xs0, xs1, cells) matches Some(slopes) ==> metric_of(
            bilinear(xs0, xs1, cells, xs0.last(), xs1.last()).0,
            metric,
        ).steps + gained(metric_of(slopes.axis0, metric), overshoot0) + gained(
            metric_of(slopes.axis1, metric),
            overshoot1,
        ) <= i64::MAX,
    ensures
        metric_of(
            policy_reading(
                xs0,
                xs1,
                cells,
                Extrapolation::Weighted,
                table_slopes(xs0, xs1, cells),
                xs0.last().sum(overshoot0),
                xs1.last().sum(overshoot1),
            ).0,
            metric,
        ).steps == metric_of(bilinear(xs0, xs1, cells, xs0.last(), xs1.last()).0, metric).steps
            + match table_slopes(xs0, xs1, cells) {
            Some(slopes) => gained(metric_of(slopes.axis0, metric), overshoot0) + gained(
                metric_of(slopes.axis1, metric),
                overshoot1,
            ),
            None => 0,
        },
{
    let boundary = bilinear(xs0, xs1, cells, xs0.last(), xs1.last()).0;
    let slopes = table_slopes(xs0, xs1, cells);
    weighted_past_ends(xs0, xs1, cells, slopes, overshoot0, overshoot1);
    match slopes {
        Some(slopes) => {
            fitted_slopes_never_fall(xs0, xs1, cells, metric);
            extended_steps(boundary, slopes, overshoot0, overshoot1, metric);
            nothing_gained(metric_of(slopes.axis0, metric));
            nothing_gained(metric_of(slopes.axis1, metric));
        },
        None => {},
    }
}

proof fn weighted_past_ends(
    xs0: Seq<Fixed>,
    xs1: Seq<Fixed>,
    cells: Seq<Option<Metrics4<Fixed>>>,
    slopes: Option<AxisSlopes<Fixed>>,
    overshoot0: Fixed,
    overshoot1: Fixed,
)
    requires
        xs0.len() > 0,
        xs1.len() > 0,
        in_order(xs0),
        in_order(xs1),
        overshoot0.steps >= 0,
        overshoot1.steps >= 0,
        xs0.last().steps + overshoot0.steps <= i64::MAX,
        xs1.last().steps + overshoot1.steps <= i64::MAX,
    ensures
        ({
            let boundary = bilinear(xs0, xs1, cells, xs0.last(), xs1.last()).0;
            policy_reading(
                xs0,
                xs1,
                cells,
                Extrapolation::Weighted,
                slopes,
                xs0.last().sum(overshoot0),
                xs1.last().sum(overshoot1),
            ).0 == if overshoot0.steps == 0 && overshoot1.steps == 0 {
                boundary
            } else {
                match slopes {
                    Some(slopes) => extended(boundary, slopes, overshoot0, overshoot1),
                    None => boundary,
                }
            }
        }),
{
    let x0 = xs0.last().sum(overshoot0);
    let x1 = xs1.last().sum(overshoot1);
    assert(xs0[0].rank() <= xs0.last().rank());
    assert(xs1[0].rank() <= xs1.last().rank());
    assert(confined(x0, xs0[0], xs0.last()) == xs0.last());
    assert(confined(x1, xs1[0], xs1.last()) == xs1.last());
    assert(x0.difference(xs0.last()) == overshoot0);
    assert(x1.difference(xs1.last()) == overshoot1);
}

proof fn extended_steps(
    boundary: Metrics4<Fixed>,
    slopes: AxisSlopes<Fixed>,
    overshoot0: Fixed,
    overshoot1: Fixed,
    metric: Metric,
)
    requires
        overshoot0.steps >= 0,
        overshoot1.steps >= 0,
        metric_of(slopes.axis0, metric).steps >= 0,
        metric_of(slopes.axis1, metric).steps >= 0,
        metric_of(boundary, metric).steps + gained(metric_of(slopes.axis0, metric), overshoot0)
            + gained(metric_of(slopes.axis1, metric), overshoot1) <= i64::MAX,
    ensures
        metric_of(extended(boundary, slopes, overshoot0, overshoot1), metric).steps == metric_of(
            boundary,
            metric,
        ).steps + gained(metric_of(slopes.axis0, metric), overshoot0) + gained(
            metric_of(slopes.axis1, metric),
            overshoot1,
        ),
{
    gain_is_no_loss(metric_of(slopes.axis0, metric), overshoot0);
    gain_is_no_loss(metric_of(slopes.axis1, metric), overshoot1);
    assert(floored(overshoot0) == overshoot0);
    assert(floored(overshoot1) == overshoot1);
}

proof fn fitted_slopes_never_fall(
    xs0: Seq<Fixed>,
    xs1: Seq<Fixed>,
    cells: Seq<Option<Metrics4<Fixed>>>,
    metric: Metric,
)
    ensures
        table_slopes(xs0, xs1, cells) matches Some(slopes) ==> metric_of(
            slopes.axis0,
            metric,
        ).steps >= 0 && metric_of(slopes.axis1, metric).steps >= 0,
{
    let band = top_band(xs0, xs1, cells, cells.len() as int);
    slopes_never_fall(band, metric, 0);
    slopes_never_fall(band, metric, 1);
    assert(metric_of(fitted_axis(band, 0), metric) == fitted_slope(band, metric, 0));
    assert(metric_of(fitted_axis(band, 1), metric) == fitted_slope(band, metric, 1));
}

proof fn gain_is_no_loss(slope: Fixed, overshoot: Fixed)
    requires
        slope.steps >= 0,
        overshoot.steps >= 0,
    ensures
        gained(slope, overshoot) >= 0,
{
    let (a, b) = (slope.steps as int, overshoot.steps as int);
    assert((a * b) / (FIXED_ONE as int) >= 0) by (nonlinear_arith)
        requires
            a >= 0,
            b >= 0,
            FIXED_ONE > 0,
    ;
}

proof fn nothing_gained(slope: Fixed)
    ensures
        gained(slope, Fixed::zero_value()) == 0,
{
    assert(slope.steps * 0 == 0);
}

impl<S: Scalar> Cache2DLinear<S> {
    pub closed spec fn points0(&self) -> Seq<S> {
        self.xs0@
    }

    pub closed spec fn points1(&self) -> Seq<S> {
        self.xs1@
    }

    /// The cells in row-major order; a dropped sample leaves its cell empty.
    pub closed spec fn grid(&self) -> Seq<Option<Metrics4<S>>> {
        self.cells@
    }

    pub closed spec fn policy(&self) -> Extrapolation {
        self.extrapolation
    }

    pub closed spec fn fitted(&self) -> Option<AxisSlopes<S>> {
        self.slopes
    }

    /// Whether slopes were fitted to the table.
    pub fn has_slopes(&self) -> (r: bool)
        ensures
            r == (self.fitted() is Some),
    {
        self.slopes.is_some()
    }

    /// Fit a table that extends its bilinear surface.
    pub fn from_samples(axis0: &Vec<S::Wide>, axis1: &Vec<S::Wide>, samples: &Vec<Option<Metrics4<S>>>) -> (r: (
        Self,
        Vec<FitWarning>,
    ))
        requires
            all_points_defined(axis0@),
            all_points_defined(axis1@),
            samples@.len() == axis0@.len() * axis1@.len(),
        ensures
            r.0.wf(),
            r.0.policy() == Extrapolation::Product,
            r.0.fits(axis0@, axis1@, samples@),
            r.1@ == r.0.fit_warnings(),
    {
        Self::from_samples_with(axis0, axis1, samples, Extrapolation::Product)
    }

    /// Whether the table holds these samples: its axes are the sweep's in ascending
    /// order, then narrowed, and each cell holds the sample of its own two coordinates.
    pub open spec fn fits(
        &self,
        axis0: Seq<S::Wide>,
        axis1: Seq<S::Wide>,
        samples: Seq<Option<Metrics4<S>>>,
    ) -> bool {
        let order0 = stable_order(axis0);
        let order1 = stable_order(axis1);
        &&& is_stable_order(axis0, order0)
        &&& is_stable_order(axis1, order1)
        &&& self.points0() == narrowed_points::<S>(arranged(axis0, order0))
        &&& self.points1() == narrowed_points::<S>(arranged(axis1, order1))
        &&& self.grid() == gathered(samples, source_2d(order0, order1))
    }

    /// The warnings of fitting the table: dropped samples, then drops in time along the
    /// rows, then along the columns.
    pub open spec fn fit_warnings(&self) -> Seq<FitWarning> {
        let rows = self.points0().len() as int;
        let columns = self.points1().len() as int;
        let cells = self.grid();
        drop_warnings(cells) + axis_warnings(cells, 1, 1, columns, cells.len() as int)
            + axis_warnings(cells, 0, columns, rows, cells.len() as int)
    }

    /// Every warning of a fitted table names an empty cell, or two kept ones of which the
    /// later takes less time.
    pub proof fn warnings_name_cells(&self)
        requires
            self.wf(),
        ensures
            all_name_cells(self.fit_warnings(), self.grid()),
    {
        let cells = self.grid();
        let n = cells.len() as int;
        let rows = self.points0().len() as int;
        let columns = self.points1().len() as int;
        self.cells.len_in_range();
        assert(rows * columns * 1 == n && 1 * rows * columns == n) by (nonlinear_arith)
            requires
                n == rows * columns,
        ;
        if n > 0 {
            assert(rows > 0 && columns > 0) by (nonlinear_arith)
                requires
                    rows * columns > 0,
                    rows >= 0,
                    columns >= 0,
            ;
        }
        let drops = drop_warnings(cells);
        let along = axis_warnings(cells, 1, 1, columns, n);
        let across = axis_warnings(cells, 0, columns, rows, n);
        drops_name_cells(cells);
        axis_names_cells(cells, 1, 1, columns, rows, n);
        axis_names_cells(cells, 0, columns, rows, 1, n);
        joined_name_cells(drops, along, cells);
        joined_name_cells(drops + along, across, cells);
    }

    /// Fit a table to the samples of a sweep, which stand in row-major order; a missing
    /// sample is dropped.
    pub fn from_samples_with(
        axis0: &Vec<S::Wide>,
        axis1: &Vec<S::Wide>,
        samples: &Vec<Option<Metrics4<S>>>,
        extrapolation: Extrapolation,
    ) -> (r: (Self, Vec<FitWarning>))
        requires
            all_points_defined(axis0@),
            all_points_defined(axis1@),
            samples@.len() == axis0@.len() * axis1@.len(),
            extrapolation == Extrapolation::Weighted ==> samples@.len() > 0,
        ensures
            r.0.wf(),
            r.0.policy() == extrapolation,
            r.0.fits(axis0@, axis1@, samples@),
            r.0.fitted() == (if extrapolation == Extrapolation::Weighted {
                table_slopes(r.0.points0(), r.0.points1(), r.0.grid())
            } else {
                None
            }),
            r.1@ == r.0.fit_warnings(),
    {
        let order0: Vec<usize> = sort_order(axis0);
        let order1: Vec<usize> = sort_order(axis1);
        let xs0: Vec<S> = arrange_narrowed(axis0, &order0);
        let xs1: Vec<S> = arrange_narrowed(axis1, &order1);
        assert(samples.len() == samples@.len());
        let source: Vec<usize> = sources(&order0, &order1);
        let (cells, mut warnings) = Cells::gather(samples, &source);
        let rows: usize = xs0.len();
        let columns: usize = xs1.len();
        proof {
            assert(rows * columns * 1 == rows * columns && 1 * rows * columns == rows * columns)
                by (nonlinear_arith);
            if rows == 0 || columns == 0 {
                assert(rows * columns == 0) by (nonlinear_arith)
                    requires
                        rows == 0 || columns == 0,
                ;
            }
        }
        scan_axis(&cells, 1, 1, columns, Ghost(rows as int), &mut warnings);
        scan_axis(&cells, 0, columns, rows, Ghost(1), &mut warnings);
        let slopes: Option<AxisSlopes<S>> = match extrapolation {
            Extrapolation::Weighted => fit_axis_slopes(&xs0, &xs1, &cells),
            _ => None,
        };
        (Cache2DLinear { xs0, xs1, cells, extrapolation, slopes }, warnings)
    }

    /// The bilinear surface at a point.
    pub fn interpolate_cell(&self, x0: S, x1: S) -> (r: (Metrics4<S>, bool))
        requires
            self.wf(),
            self.grid().len() > 0,
            !x0.undefined(),
            !x1.undefined(),
        ensures
            r == bilinear(self.points0(), self.points1(), self.grid(), x0, x1),
    {
        let rows: usize = self.xs0.len();
        let columns: usize = self.xs1.len();
        proof {
            self.shape();
        }
        let a: Located<S> = locate(&self.xs0, x0);
        let b: Located<S> = locate(&self.xs1, x1);
        proof {
            self.cells.len_in_range();
            corner_in_table(a.low as int, b.low as int, rows as int, columns as int);
            corner_in_table(a.low as int, b.high as int, rows as int, columns as int);
            corner_in_table(a.high as int, b.low as int, rows as int, columns as int);
            corner_in_table(a.high as int, b.high as int, rows as int, columns as int);
        }
        let rest0: S = S::one().minus(a.t);
        let rest1: S = S::one().minus(b.t);
        let corners: Vec<Corner<S>> = vec![
            Corner { cell: a.low * columns + b.low, weight: rest0.times(rest1) },
            Corner { cell: a.low * columns + b.high, weight: rest0.times(b.t) },
            Corner { cell: a.high * columns + b.low, weight: a.t.times(rest1) },
            Corner { cell: a.high * columns + b.high, weight: a.t.times(b.t) },
        ];
        assert(corners@ =~= corners_2d(a, b, columns as int));
        match blend_corners(&self.cells, &corners, a.outside || b.outside) {
            Some(blend) => blend,
            None => {
                let low0: S = square(along(&self.xs0, &a, x0, a.low));
                let high0: S = square(along(&self.xs0, &a, x0, a.high));
                let low1: S = square(along(&self.xs1, &b, x1, b.low));
                let high1: S = square(along(&self.xs1, &b, x1, b.high));
                let distances: Vec<S> = vec![
                    low0.plus(low1),
                    low0.plus(high1),
                    high0.plus(low1),
                    high0.plus(high1),
                ];
                assert(distances@ =~= distances_2d(self.xs0@, self.xs1@, a, b, x0, x1));
                (take_nearest(&self.cells, &corners, &distances), true)
            },
        }
    }

    /// The value of the table under its policy, and whether the point counts as off the
    /// grid.
    pub fn lookup(&self, x0: S, x1: S) -> (r: (Metrics4<S>, bool))
        requires
            self.wf(),
            self.grid().len() > 0,
            !x0.undefined(),
            !x1.undefined(),
        ensures
            r == policy_reading(
                self.points0(),
                self.points1(),
                self.grid(),
                self.policy(),
                self.fitted(),
                x0,
                x1,
            ),
    {
        proof {
            self.shape();
        }
        if let Extrapolation::Product = self.extrapolation {
            return self.interpolate_cell(x0, x1);
        }
        let low0: S = self.xs0[0];
        let high0: S = self.xs0[self.xs0.len() - 1];
        let low1: S = self.xs1[0];
        let high1: S = self.xs1[self.xs1.len() - 1];
        let outside: bool = x0.below(low0) || high0.below(x0) || x1.below(low1) || high1.below(x1);
        let (cell, leans) = self.interpolate_cell(
            confine(x0, low0, high0),
            confine(x1, low1, high1),
        );
        if !outside {
            return (cell, leans);
        }
        let mut m: Metrics4<S> = cell;
        if let Some(slopes) = self.slopes {
            m.add_scaled(slopes.axis0, at_least_zero(x0.minus(high0)));
            m.add_scaled(slopes.axis1, at_least_zero(x1.minus(high1)));
        }
        (m, true)
    }

    /// A table with cells has points on both axes.
    proof fn shape(&self)
        requires
            self.wf(),
            self.grid().len() > 0,
        ensures
            self.xs0@.len() > 0,
            self.xs1@.len() > 0,
    {
        assert(self.xs0@.len() > 0 && self.xs1@.len() > 0) by (nonlinear_arith)
            requires
                self.xs0@.len() * self.xs1@.len() > 0,
        ;
    }

    /// A table gives back each of its samples at its own point, as one that is on the
    /// grid, whatever other samples were dropped.
    pub proof fn reproduces_samples(&self, i: int, j: int)
        where S: NeutralElements
        requires
            self.wf(),
            0 <= i < self.points0().len(),
            0 <= j < self.points1().len(),
            well_spaced(self.points0()),
            well_spaced(self.points1()),
            self.grid()[i * self.points1().len() + j] is Some,
        ensures
            self.reading(seq![self.points0()[i], self.points1()[j]]) == Some(
                (self.grid()[i * self.points1().len() + j]->0, false),
            ),
    {
        let xs0 = self.points0();
        let xs1 = self.points1();
        let rows = xs0.len() as int;
        let columns = xs1.len() as int;
        assert(self.xs0.len() == rows && self.xs1.len() == columns);
        assert(self.cells@.len() == rows * columns);
        located_at_point(xs0, i);
        located_at_point(xs1, j);
        let a = located(xs0, xs0[i]);
        let b = located(xs1, xs1[j]);
        corner_in_table(a.low as int, b.low as int, rows, columns);
        corner_in_table(a.low as int, b.high as int, rows, columns);
        corner_in_table(a.high as int, b.low as int, rows, columns);
        corner_in_table(a.high as int, b.high as int, rows, columns);
        self.cells.len_in_range();
        let corners = corners_2d(a, b, columns);
        assert(on_table(corners, self.grid().len()));
        S::complements();
        S::neutral(S::zero_value());
        S::neutral(S::one_value());
        let at = if a.t == S::zero_value() && a.low == i {
            if b.t == S::zero_value() && b.low == j {
                0int
            } else {
                1
            }
        } else {
            if b.t == S::zero_value() && b.low == j {
                2int
            } else {
                3
            }
        };
        assert(corners[at].weight == S::one_value());
        assert(corners[at].cell == i * columns + j);
        lone_blend(
            self.grid(),
            corners,
            distances_2d(xs0, xs1, a, b, xs0[i], xs1[j]),
            a.outside || b.outside,
            at,
        );
        corner_in_table(i, j, rows, columns);
        assert(any_present(self.grid())) by {
            assert(self.grid()[i * columns + j] is Some);
        }
        assert(!xs0[i].undefined() && !xs1[j].undefined());
        assert(!xs0[0].undefined() && !xs1[0].undefined());
        assert(!xs0.last().undefined() && !xs1.last().undefined());
        assert(!past_ends(xs0, xs0[i]) && !past_ends(xs1, xs1[j]));
    }
}

/// A corner's cell is within the table.
proof fn corner_in_table(i: int, j: int, rows: int, columns: int)
    requires
        0 <= i < rows,
        0 <= j < columns,
    ensures
        0 <= i * columns,
        i * columns + j < rows * columns,
{
    assert(0 <= i * columns && i * columns + j < rows * columns) by (nonlinear_arith)
        requires
            0 <= i < rows,
            0 <= j < columns,
    ;
}

/// How far a query lies from a point of its segment, in widths of the segment.
pub fn along<S: Scalar>(xs: &Vec<S>, at: &Located<S>, x: S, point: usize) -> (r: S)
    requires
        at.low < xs@.len(),
        at.high < xs@.len(),
        point < xs@.len(),
    ensures
        r == distance_along(xs@, *at, x, point),
{
    let width: S = xs[at.high].minus(xs[at.low]);
    if width.is_tiny() {
        S::zero()
    } else {
        x.minus(xs[point]).over(width)
    }
}

pub fn square<S: Scalar>(value: S) -> (r: S)
    ensures
        r == squared(value),
{
    value.times(value)
}

impl<S: Scalar> Cache<S> for Cache2DLinear<S> {
    closed spec fn wf(&self) -> bool {
        &&& self.cells.wf()
        &&& all_defined(self.xs0@)
        &&& all_defined(self.xs1@)
        &&& in_order(self.xs0@)
        &&& in_order(self.xs1@)
        &&& self.cells@.len() == self.xs0@.len() * self.xs1@.len()
    }

    open spec fn arity(&self) -> nat {
        2
    }

    open spec fn reading(&self, sweep: Seq<S>) -> Option<(Metrics4<S>, bool)> {
        if sweep[0].undefined() || sweep[1].undefined() || !any_present(self.grid()) {
            None
        } else {
            Some(
                policy_reading(
                    self.points0(),
                    self.points1(),
                    self.grid(),
                    self.policy(),
                    self.fitted(),
                    sweep[0],
                    sweep[1],
                ),
            )
        }
    }

    open spec fn best_rates(&self) -> PeakRates<S::Wide> {
        peak_of(self.grid(), self.grid().len() as int)
    }

    open spec fn held(&self, cell: int) -> Option<(Seq<S>, Option<S>)> {
        let columns = self.points1().len() as int;
        if 0 <= cell < self.grid().len() {
            Some(
                (
                    seq![self.points0()[cell / columns], self.points1()[cell % columns]],
                    kept_time(self.grid()[cell]),
                ),
            )
        } else {
            None
        }
    }

    fn eval(&self, sweep: &Vec<S>) -> (r: LeafMetrics<S>) {
        let x0: S = sweep[0];
        let x1: S = sweep[1];
        if x0.is_nan() || x1.is_nan() || !self.cells.has_any() {
            return LeafMetrics::miss();
        }
        let (m, outside) = self.lookup(x0, x1);
        LeafMetrics::value(m, outside)
    }

    fn peak_rates(&self) -> (r: PeakRates<S::Wide>) {
        peak_over_cells(&self.cells)
    }

    fn cell(&self, cell: usize) -> (r: Option<(Vec<S>, Option<S>)>) {
        if cell >= self.cells.len() {
            return None;
        }
        let columns: usize = self.xs1.len();
        let ghost rows = self.xs0@.len() as int;
        assert(columns > 0 && 0 <= cell / columns < rows) by (nonlinear_arith)
            requires
                0 <= cell < rows * columns,
                rows >= 0,
                columns >= 0,
        ;
        let coords: Vec<S> = vec![self.xs0[cell / columns], self.xs1[cell % columns]];
        assert(coords@ =~= seq![
            self.points0()[cell as int / columns as int],
            self.points1()[cell as int % columns as int],
        ]);
        Some((coords, self.cells.time(cell)))
    }
}

} // verus!
