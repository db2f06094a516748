//! What a table reads where samples were dropped, and which cells its slopes are fitted
//! to, in plain arithmetic over fixed-point numbers that stay in range.

use crate::cache::corners::{
    blended_corners, convex_sum, convex_weight, meaningful_drop, nearest_corner, Corner,
};
use crate::cache::exact::steps_of;
use crate::cache::interp::{Located, Metrics4};
use crate::cache::linear_2d::{distance_along, distances_2d, squared};
use crate::cache::linear_3d::distances_3d;
use crate::cache::scalar::{Fixed, FIXED_ONE};
use crate::cache::slopes::{in_band, top_band, BandCell, Metric};
use vstd::prelude::*;

verus! {

/// Whether the kept corners all hold a value of a metric, and no weight is negative.
pub open spec fn kept_corners_hold(
    cells: Seq<Option<Metrics4<Fixed>>>,
    corners: Seq<Corner<Fixed>>,
    metric: Metric,
    value: int,
) -> bool {
    forall|k: int|
        0 <= k < corners.len() ==> (#[trigger] corners[k]).weight.steps >= 0 && (
        cells[corners[k].cell as int] matches Some(metrics) ==> steps_of(metrics, metric) == value)
}

/// The weights of the kept corners, added up.
pub open spec fn kept_weight(
    cells: Seq<Option<Metrics4<Fixed>>>,
    corners: Seq<Corner<Fixed>>,
    count: int,
) -> int
    decreases count,
{
    if count <= 0 {
        0
    } else {
        kept_weight(cells, corners, count - 1) + if cells[corners[count - 1].cell as int] is Some {
            corners[count - 1].weight.steps as int
        } else {
            0
        }
    }
}

proof fn kept_weight_grows(
    cells: Seq<Option<Metrics4<Fixed>>>,
    corners: Seq<Corner<Fixed>>,
    count: int,
)
    requires
        0 <= count <= corners.len(),
        forall|k: int| 0 <= k < corners.len() ==> (#[trigger] corners[k]).weight.steps >= 0,
    ensures
        0 <= kept_weight(cells, corners, count) <= kept_weight(
            cells,
            corners,
            corners.len() as int,
        ),
    decreases corners.len() - count,
{
    if count < corners.len() {
        kept_weight_grows(cells, corners, count + 1);
        assert(corners[count].weight.steps >= 0);
    }
    kept_weight_not_negative(cells, corners, count);
}

proof fn kept_weight_not_negative(
    cells: Seq<Option<Metrics4<Fixed>>>,
    corners: Seq<Corner<Fixed>>,
    count: int,
)
    requires
        0 <= count <= corners.len(),
        forall|k: int| 0 <= k < corners.len() ==> (#[trigger] corners[k]).weight.steps >= 0,
    ensures
        0 <= kept_weight(cells, corners, count),
    decreases count,
{
    if count > 0 {
        kept_weight_not_negative(cells, corners, count - 1);
        assert(corners[count - 1].weight.steps >= 0);
    }
}

/// The sums of equal corners: the weights add up, and each corner adds its share.
proof fn equal_corners_add_up(
    cells: Seq<Option<Metrics4<Fixed>>>,
    corners: Seq<Corner<Fixed>>,
    metric: Metric,
    whole: int,
    count: int,
)
    requires
        0 <= count <= corners.len(),
        whole >= 0,
        kept_corners_hold(cells, corners, metric, whole * FIXED_ONE),
        kept_weight(cells, corners, corners.len() as int) <= i64::MAX,
        whole * kept_weight(cells, corners, corners.len() as int) <= i64::MAX,
    ensures
        convex_weight(cells, corners, count).steps == kept_weight(cells, corners, count),
        steps_of(convex_sum(cells, corners, count), metric) == whole * kept_weight(
            cells,
            corners,
            count,
        ),
    decreases count,
{
    let one = FIXED_ONE as int;
    if count > 0 {
        equal_corners_add_up(cells, corners, metric, whole, count - 1);
        kept_weight_grows(cells, corners, count);
        kept_weight_grows(cells, corners, count - 1);
        let before = kept_weight(cells, corners, count - 1);
        let after = kept_weight(cells, corners, count);
        let all = kept_weight(cells, corners, corners.len() as int);
        let share = corners[count - 1].weight.steps as int;
        assert(share >= 0);
        if let Some(metrics) = cells[corners[count - 1].cell as int] {
            assert(steps_of(metrics, metric) == whole * one);
            assert(((whole * one) * share) / one == whole * share) by (nonlinear_arith)
                requires
                    one == 1048576,
            ;
            assert(0 <= whole * share <= whole * all && 0 <= whole * after <= whole * all && whole
                * after == whole * before + whole * share) by (nonlinear_arith)
                requires
                    whole >= 0,
                    0 <= share,
                    0 <= before,
                    after == before + share,
                    after <= all,
            ;
        }
    } else {
        assert(whole * 0 == 0) by (nonlinear_arith);
    }
}

/// A corner that carries weight and was dropped is left out, and the weights of the others
/// are scaled up to one: where these hold the same whole value it is read as it is, flagged
/// as off the grid. Stated for weights whose sum divides one evenly.
pub proof fn dropped_corners_are_left_out(
    cells: Seq<Option<Metrics4<Fixed>>>,
    corners: Seq<Corner<Fixed>>,
    distances: Seq<Fixed>,
    outside: bool,
    metric: Metric,
    whole: int,
    parts: int,
)
    requires
        meaningful_drop(cells, corners),
        whole >= 0,
        kept_corners_hold(cells, corners, metric, whole * FIXED_ONE),
        parts > 0,
        kept_weight(cells, corners, corners.len() as int) * parts == FIXED_ONE,
        whole * FIXED_ONE <= i64::MAX,
        parts * FIXED_ONE <= i64::MAX,
    ensures
        steps_of(blended_corners(cells, corners, distances, outside).0, metric) == whole
            * FIXED_ONE,
        blended_corners(cells, corners, distances, outside).1,
{
    let one = FIXED_ONE as int;
    let n = corners.len() as int;
    let weight = kept_weight(cells, corners, n);
    assert(0 < weight <= one && whole * weight <= whole * one) by (nonlinear_arith)
        requires
            weight * parts == one,
            parts > 0,
            whole >= 0,
            one == 1048576,
    ;
    equal_corners_add_up(cells, corners, metric, whole, n);
    assert((one * one) / weight == parts * one) by (nonlinear_arith)
        requires
            weight * parts == one,
            weight > 0,
    ;
    assert(((whole * weight) * (parts * one)) / one == whole * one) by (nonlinear_arith)
        requires
            weight * parts == one,
            one == 1048576,
    ;
}

/// The corner that stands in was kept, and no other kept corner is nearer; there is one
/// unless all were dropped.
pub proof fn nearest_corner_is_nearest(
    cells: Seq<Option<Metrics4<Fixed>>>,
    corners: Seq<Corner<Fixed>>,
    distances: Seq<Fixed>,
    count: int,
)
    requires
        0 <= count <= corners.len(),
    ensures
        match nearest_corner(cells, corners, distances, count) {
            Some(best) => {
                &&& 0 <= best < count
                &&& cells[corners[best].cell as int] is Some
                &&& forall|k: int|
                    0 <= k < count && cells[(#[trigger] corners[k]).cell as int] is Some
                        ==> distances[best].steps <= distances[k].steps
            },
            None => forall|k: int|
                0 <= k < count ==> cells[(#[trigger] corners[k]).cell as int] is None,
        },
    decreases count,
{
    if count > 0 {
        nearest_corner_is_nearest(cells, corners, distances, count - 1);
    }
}

/// The slopes of a table are fitted to its kept cells from a quarter of either axis on:
/// each of them is in the band with its coordinates and its metrics.
pub proof fn band_holds_upper_cells(
    xs0: Seq<Fixed>,
    xs1: Seq<Fixed>,
    cells: Seq<Option<Metrics4<Fixed>>>,
    i: int,
    j: int,
    metrics: Metrics4<Fixed>,
)
    requires
        0 <= i < xs0.len(),
        0 <= j < xs1.len(),
        cells.len() == xs0.len() * xs1.len(),
        cells[i * xs1.len() + j] == Some(metrics),
        4 * xs0[i].steps >= xs0.last().steps,
        4 * xs1[j].steps >= xs1.last().steps,
    ensures
        top_band(xs0, xs1, cells, cells.len() as int).contains(
            BandCell { x0: xs0[i], x1: xs1[j], metrics },
        ),
{
    let columns = xs1.len() as int;
    let rows = xs0.len() as int;
    let at = i * columns + j;
    assert(0 <= at < rows * columns) by (nonlinear_arith)
        requires
            at == i * columns + j,
            0 <= i < rows,
            0 <= j < columns,
    ;
    vstd::arithmetic::div_mod::lemma_fundamental_div_mod_converse(at, columns, i, j);
    assert((xs0.last().steps * 262144) / 1048576 <= xs0[i].steps);
    assert((xs1.last().steps * 262144) / 1048576 <= xs1[j].steps);
    assert(in_band(xs0, xs1, cells, at));
    band_collects(xs0, xs1, cells, cells.len() as int, at);
}

proof fn band_collects(
    xs0: Seq<Fixed>,
    xs1: Seq<Fixed>,
    cells: Seq<Option<Metrics4<Fixed>>>,
    count: int,
    at: int,
)
    requires
        0 <= at < count,
        in_band(xs0, xs1, cells, at),
    ensures
        top_band(xs0, xs1, cells, count).contains(
            BandCell {
                x0: xs0[at / xs1.len() as int],
                x1: xs1[at % xs1.len() as int],
                metrics: cells[at]->0,
            },
        ),
    decreases count,
{
    let columns = xs1.len() as int;
    let wanted = BandCell { x0: xs0[at / columns], x1: xs1[at % columns], metrics: cells[at]->0 };
    let last = BandCell {
        x0: xs0[(count - 1) / columns],
        x1: xs1[(count - 1) % columns],
        metrics: cells[count - 1]->0,
    };
    if at < count - 1 {
        band_collects(xs0, xs1, cells, count - 1, at);
    }
    vstd::seq_lib::lemma_seq_contains_after_push(
        top_band(xs0, xs1, cells, count - 1),
        last,
        wanted,
    );
}

/// Every cell of the band is a kept cell of the table, and stands no lower than a quarter
/// of either axis, rounded down to a step.
pub proof fn band_holds_only_upper_cells(
    xs0: Seq<Fixed>,
    xs1: Seq<Fixed>,
    cells: Seq<Option<Metrics4<Fixed>>>,
    count: int,
    k: int,
)
    requires
        0 <= count <= cells.len(),
        xs1.len() > 0,
        0 <= k < top_band(xs0, xs1, cells, count).len(),
    ensures
        ({
            let cell = top_band(xs0, xs1, cells, count)[k];
            &&& 4 * cell.x0.steps + 3 >= xs0.last().steps
            &&& 4 * cell.x1.steps + 3 >= xs1.last().steps
            &&& exists|at: int|
                0 <= at < count && cell.x0 == xs0[at / xs1.len() as int] && cell.x1 == xs1[at
                    % xs1.len() as int] && #[trigger] cells[at] == Some(cell.metrics)
        }),
    decreases count,
{
    if count > 0 {
        let earlier = top_band(xs0, xs1, cells, count - 1);
        if k < earlier.len() {
            band_holds_only_upper_cells(xs0, xs1, cells, count - 1, k);
            assert(top_band(xs0, xs1, cells, count)[k] == earlier[k]);
        } else {
            assert(in_band(xs0, xs1, cells, count - 1));
            assert(cells[count - 1] is Some);
        }
    }
}

/// Whether a query lies an exact number of steps of one across its segment.
pub open spec fn lies_across(xs: Seq<Fixed>, at: Located<Fixed>, x: Fixed, across: int) -> bool {
    let low = xs[at.low as int].steps;
    let high = xs[at.high as int].steps;
    &&& 0 <= across <= FIXED_ONE
    &&& 0 < high - low <= i64::MAX
    &&& (x.steps - low) * FIXED_ONE == across * (high - low)
}

/// What a query that lies so far across is away from an end of its segment, squared.
pub open spec fn away_squared(across: int, high: bool) -> int {
    let away = if high {
        FIXED_ONE - across
    } else {
        across
    };
    (away * away) / FIXED_ONE as int
}

proof fn distance_is_across(xs: Seq<Fixed>, at: Located<Fixed>, x: Fixed, across: int)
    requires
        lies_across(xs, at, x, across),
    ensures
        squared(distance_along(xs, at, x, at.low)).steps == away_squared(across, false),
        squared(distance_along(xs, at, x, at.high)).steps == away_squared(across, true),
        0 <= away_squared(across, false) <= FIXED_ONE,
        0 <= away_squared(across, true) <= FIXED_ONE,
{
    let one = FIXED_ONE as int;
    let low = xs[at.low as int].steps as int;
    let high = xs[at.high as int].steps as int;
    let width = high - low;
    let way = x.steps - low;
    assert(0 <= way <= width) by (nonlinear_arith)
        requires
            way * one == across * width,
            0 <= across <= one,
            width > 0,
            one == 1048576,
    ;
    assert((way * one) / width == across) by (nonlinear_arith)
        requires
            way * one == across * width,
            width > 0,
    ;
    let back = way - width;
    assert((back * one) / width == across - one) by (nonlinear_arith)
        requires
            way * one == across * width,
            back == way - width,
            width > 0,
    ;
    let rest = across - one;
    assert(rest * rest == (one - across) * (one - across)) by (nonlinear_arith)
        requires
            rest == across - one,
    ;
    share_squared_within(across, one);
    share_squared_within(one - across, one);
}

proof fn share_squared_within(share: int, one: int)
    requires
        0 <= share <= one,
        one > 0,
    ensures
        0 <= (share * share) / one <= one,
{
    assert(0 <= share * share <= one * one) by (nonlinear_arith)
        requires
            0 <= share <= one,
    ;
    let square = share * share;
    assert(0 <= square / one <= one) by (nonlinear_arith)
        requires
            0 <= square <= one * one,
            one > 0,
    ;
}

/// The corners of a grid cell are as far as the query lies from them across the cell, axis
/// by axis, squared and added.
pub proof fn grid_corners_are_as_far(
    xs0: Seq<Fixed>,
    xs1: Seq<Fixed>,
    a: Located<Fixed>,
    b: Located<Fixed>,
    x: (Fixed, Fixed),
    across: (int, int),
)
    requires
        lies_across(xs0, a, x.0, across.0),
        lies_across(xs1, b, x.1, across.1),
    ensures
        ({
            let distances = distances_2d(xs0, xs1, a, b, x.0, x.1);
            let (low0, high0) = (away_squared(across.0, false), away_squared(across.0, true));
            let (low1, high1) = (away_squared(across.1, false), away_squared(across.1, true));
            &&& distances[0].steps == low0 + low1
            &&& distances[1].steps == low0 + high1
            &&& distances[2].steps == high0 + low1
            &&& distances[3].steps == high0 + high1
        }),
{
    distance_is_across(xs0, a, x.0, across.0);
    distance_is_across(xs1, b, x.1, across.1);
}

/// The corners of a block cell are as far as the query lies from them across the cell, axis
/// by axis, squared and added. The ends of the first axis alternate quickest.
pub proof fn block_corners_are_as_far(
    xs0: Seq<Fixed>,
    xs1: Seq<Fixed>,
    xs2: Seq<Fixed>,
    a: Located<Fixed>,
    b: Located<Fixed>,
    c: Located<Fixed>,
    x: (Fixed, Fixed, Fixed),
    across: (int, int, int),
    k: int,
)
    requires
        lies_across(xs0, a, x.0, across.0),
        lies_across(xs1, b, x.1, across.1),
        lies_across(xs2, c, x.2, across.2),
        0 <= k < 8,
    ensures
        distances_3d(xs0, xs1, xs2, a, b, c, x)[k].steps == away_squared(across.0, k % 2 == 1)
            + away_squared(across.1, k == 2 || k == 3 || k >= 6) + away_squared(across.2, k >= 4),
{
    distance_is_across(xs0, a, x.0, across.0);
    distance_is_across(xs1, b, x.1, across.1);
    distance_is_across(xs2, c, x.2, across.2);
}

} // verus!
