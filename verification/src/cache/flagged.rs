//! Which queries a complete table flags as off its grid, in fixed-point numbers.

use crate::cache::affine::segment_on_axis;
use crate::cache::cells::all_present;
use crate::cache::corners::{complete_blend, on_table};
use crate::cache::interp::{located, Metrics4};
use crate::cache::linear_1d::line_reading;
use crate::cache::linear_2d::{bilinear, corners_2d, distances_2d, policy_reading};
use crate::cache::linear_3d::{
    corner_ends, corners_3d, distances_3d, end_of, flat_unflat, trilinear,
};
use crate::cache::scalar::Fixed;
use crate::cache::slopes::AxisSlopes;
use crate::cache::Extrapolation;
use vstd::prelude::*;

verus! {

/// Whether a coordinate lies before the first point of an axis or behind the last.
pub open spec fn beyond(xs: Seq<Fixed>, x: Fixed) -> bool {
    x.steps < xs[0].steps || xs.last().steps < x.steps
}

/// A table over one axis flags exactly the queries beyond its ends.
pub proof fn line_flags_what_lies_beyond(xs: Seq<Fixed>, metrics: Seq<Metrics4<Fixed>>, x: Fixed)
    requires
        xs.len() > 0,
    ensures
        line_reading(xs, metrics, x).1 == beyond(xs, x),
{
}

/// A complete table over two axes flags exactly the queries beyond the ends of either,
/// whatever its policy.
pub proof fn grid_flags_what_lies_beyond(
    xs0: Seq<Fixed>,
    xs1: Seq<Fixed>,
    cells: Seq<Option<Metrics4<Fixed>>>,
    policy: Extrapolation,
    slopes: Option<AxisSlopes<Fixed>>,
    x0: Fixed,
    x1: Fixed,
)
    requires
        xs0.len() >= 2,
        xs1.len() >= 2,
        cells.len() == xs0.len() * xs1.len(),
        cells.len() <= usize::MAX,
        xs0.len() <= usize::MAX,
        xs1.len() <= usize::MAX,
        all_present(cells),
    ensures
        policy_reading(xs0, xs1, cells, policy, slopes, x0, x1).1 == (beyond(xs0, x0) || beyond(
            xs1,
            x1,
        )),
{
    complete_grid_flags(xs0, xs1, cells, x0, x1);
}

proof fn complete_grid_flags(
    xs0: Seq<Fixed>,
    xs1: Seq<Fixed>,
    cells: Seq<Option<Metrics4<Fixed>>>,
    x0: Fixed,
    x1: Fixed,
)
    requires
        xs0.len() >= 2,
        xs1.len() >= 2,
        cells.len() == xs0.len() * xs1.len(),
        cells.len() <= usize::MAX,
        xs0.len() <= usize::MAX,
        xs1.len() <= usize::MAX,
        all_present(cells),
    ensures
        bilinear(xs0, xs1, cells, x0, x1).1 == (beyond(xs0, x0) || beyond(xs1, x1)),
{
    let (rows, columns) = (xs0.len() as int, xs1.len() as int);
    segment_on_axis(xs0, x0);
    segment_on_axis(xs1, x1);
    let a = located(xs0, x0);
    let b = located(xs1, x1);
    place_on_grid(a.low as int, b.low as int, rows, columns);
    place_on_grid(a.low as int, b.high as int, rows, columns);
    place_on_grid(a.high as int, b.low as int, rows, columns);
    place_on_grid(a.high as int, b.high as int, rows, columns);
    let corners = corners_2d(a, b, columns);
    assert(on_table(corners, cells.len()));
    complete_blend(
        cells,
        corners,
        distances_2d(xs0, xs1, a, b, x0, x1),
        a.outside || b.outside,
    );
}

proof fn place_on_grid(i: int, j: int, rows: int, columns: int)
    requires
        0 <= i < rows,
        0 <= j < columns,
    ensures
        0 <= i * columns + j < rows * columns,
{
    assert(0 <= i * columns + j < rows * columns) by (nonlinear_arith)
        requires
            0 <= i < rows,
            0 <= j < columns,
    ;
}

/// A complete table over three axes flags exactly the queries beyond the ends of any.
pub proof fn block_flags_what_lies_beyond(
    xs0: Seq<Fixed>,
    xs1: Seq<Fixed>,
    xs2: Seq<Fixed>,
    cells: Seq<Option<Metrics4<Fixed>>>,
    x: (Fixed, Fixed, Fixed),
)
    requires
        xs0.len() >= 2,
        xs1.len() >= 2,
        xs2.len() >= 2,
        cells.len() == xs0.len() * xs1.len() * xs2.len(),
        cells.len() <= usize::MAX,
        xs0.len() <= usize::MAX,
        xs1.len() <= usize::MAX,
        xs2.len() <= usize::MAX,
        all_present(cells),
    ensures
        trilinear(xs0, xs1, xs2, cells, x).1 == (beyond(xs0, x.0) || beyond(xs1, x.1) || beyond(
            xs2,
            x.2,
        )),
{
    let (d0, d1, d2) = (xs0.len() as int, xs1.len() as int, xs2.len() as int);
    segment_on_axis(xs0, x.0);
    segment_on_axis(xs1, x.1);
    segment_on_axis(xs2, x.2);
    let a = located(xs0, x.0);
    let b = located(xs1, x.1);
    let c = located(xs2, x.2);
    let corners = corners_3d(a, b, c, d1, d2);
    assert forall|k: int| 0 <= k < corners.len() implies (#[trigger] corners[k]).cell
        < cells.len() by {
        let (h0, h1, h2) = corner_ends(k);
        flat_unflat(
            d0,
            d1,
            d2,
            end_of(a, h0) as int,
            end_of(b, h1) as int,
            end_of(c, h2) as int,
        );
    }
    complete_blend(
        cells,
        corners,
        distances_3d(xs0, xs1, xs2, a, b, c, x),
        a.outside || b.outside || c.outside,
    );
}

} // verus!
