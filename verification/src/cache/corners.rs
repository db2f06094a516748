//! Blending the corners of the cell that a query falls into.
//!
//! Where all corners that carry weight were measured, the result is their weighted
//! sum. Where one of them was dropped, the weights that are left are made
//! non-negative and scaled to one, so that the result stays between measurements; and
//! where no weight is left, the nearest measured corner stands in. Both count as off
//! the grid.

use crate::cache::cells::{all_present, Cells};
use crate::cache::interp::Metrics4;
use crate::cache::scalar::{at_least_zero, floored, ranks_below, Scalar};
use vstd::prelude::*;

verus! {

/// A corner: its cell and its weight.
#[derive(Clone, Copy, Debug)]
pub struct Corner<S> {
    pub cell: usize,
    pub weight: S,
}

/// Whether every corner is a cell of the table.
pub open spec fn on_table<S: Scalar>(corners: Seq<Corner<S>>, cells: nat) -> bool {
    forall|k: int| 0 <= k < corners.len() ==> (#[trigger] corners[k]).cell < cells
}

/// The weighted sum of the measured corners among the first `count`.
pub open spec fn weighted_sum<S: Scalar>(
    cells: Seq<Option<Metrics4<S>>>,
    corners: Seq<Corner<S>>,
    count: int,
) -> Metrics4<S>
    decreases count,
{
    if count <= 0 {
        Metrics4::nothing()
    } else {
        let rest = weighted_sum(cells, corners, count - 1);
        match cells[corners[count - 1].cell as int] {
            Some(metrics) => rest.with_added(metrics, corners[count - 1].weight),
            None => rest,
        }
    }
}

/// Whether a corner that carries weight was dropped.
pub open spec fn meaningful_drop<S: Scalar>(
    cells: Seq<Option<Metrics4<S>>>,
    corners: Seq<Corner<S>>,
) -> bool {
    exists|k: int|
        0 <= k < corners.len() && cells[(#[trigger] corners[k]).cell as int] is None
            && corners[k].weight.notable()
}

/// The sum of the measured corners with weights made non-negative.
pub open spec fn convex_sum<S: Scalar>(
    cells: Seq<Option<Metrics4<S>>>,
    corners: Seq<Corner<S>>,
    count: int,
) -> Metrics4<S>
    decreases count,
{
    if count <= 0 {
        Metrics4::nothing()
    } else {
        let rest = convex_sum(cells, corners, count - 1);
        match cells[corners[count - 1].cell as int] {
            Some(metrics) => rest.with_added(metrics, floored(corners[count - 1].weight)),
            None => rest,
        }
    }
}

/// The sum of those weights.
pub open spec fn convex_weight<S: Scalar>(
    cells: Seq<Option<Metrics4<S>>>,
    corners: Seq<Corner<S>>,
    count: int,
) -> S
    decreases count,
{
    if count <= 0 {
        S::zero_value()
    } else {
        let rest = convex_weight(cells, corners, count - 1);
        if cells[corners[count - 1].cell as int] is Some {
            rest.sum(floored(corners[count - 1].weight))
        } else {
            rest
        }
    }
}

/// The blend of the corners and whether it counts as off the grid; nothing where the
/// nearest corner has to stand in.
pub open spec fn corner_blend<S: Scalar>(
    cells: Seq<Option<Metrics4<S>>>,
    corners: Seq<Corner<S>>,
    outside: bool,
) -> Option<(Metrics4<S>, bool)> {
    let n = corners.len() as int;
    if !meaningful_drop(cells, corners) {
        Some((weighted_sum(cells, corners, n), outside))
    } else {
        let weight = convex_weight(cells, corners, n);
        if ranks_below(S::zero_value(), weight) && weight.notable() {
            Some((convex_sum(cells, corners, n).scaled(S::one_value().quotient(weight)), true))
        } else {
            None
        }
    }
}

/// The nearest measured corner among the first `count`, the first of equally near ones.
pub open spec fn nearest_corner<S: Scalar>(
    cells: Seq<Option<Metrics4<S>>>,
    corners: Seq<Corner<S>>,
    distances: Seq<S>,
    count: int,
) -> Option<int>
    decreases count,
{
    if count <= 0 {
        None
    } else {
        let earlier = nearest_corner(cells, corners, distances, count - 1);
        if cells[corners[count - 1].cell as int] is None {
            earlier
        } else {
            match earlier {
                Some(k) => if ranks_below(distances[count - 1], distances[k]) {
                    Some(count - 1)
                } else {
                    earlier
                },
                None => Some(count - 1),
            }
        }
    }
}

/// The metrics of the nearest measured corner, or zero if all were dropped.
pub open spec fn nearest_metrics<S: Scalar>(
    cells: Seq<Option<Metrics4<S>>>,
    corners: Seq<Corner<S>>,
    distances: Seq<S>,
) -> Metrics4<S> {
    match nearest_corner(cells, corners, distances, corners.len() as int) {
        Some(k) => cells[corners[k].cell as int]->0,
        None => Metrics4::nothing(),
    }
}

/// The blend of the corners of a table.
pub open spec fn blended_corners<S: Scalar>(
    cells: Seq<Option<Metrics4<S>>>,
    corners: Seq<Corner<S>>,
    distances: Seq<S>,
    outside: bool,
) -> (Metrics4<S>, bool) {
    match corner_blend(cells, corners, outside) {
        Some(blend) => blend,
        None => (nearest_metrics(cells, corners, distances), true),
    }
}

/// Where nothing was dropped, a blend is the weighted sum of all corners.
pub proof fn complete_blend<S: Scalar>(
    cells: Seq<Option<Metrics4<S>>>,
    corners: Seq<Corner<S>>,
    distances: Seq<S>,
    outside: bool,
)
    requires
        all_present(cells),
        on_table(corners, cells.len()),
    ensures
        blended_corners(cells, corners, distances, outside) == (
            weighted_sum(cells, corners, corners.len() as int),
            outside,
        ),
{
    assert forall|k: int| 0 <= k < corners.len() implies cells[(#[trigger] corners[k]).cell as int]
        is Some by {
        assert(corners[k].cell < cells.len());
    }
}

/// The blend of the corners, unless the nearest one has to stand in.
pub fn blend_corners<S: Scalar>(cells: &Cells<S>, corners: &Vec<Corner<S>>, outside: bool) -> (r:
    Option<(Metrics4<S>, bool)>)
    requires
        cells.wf(),
        on_table(corners@, cells@.len()),
    ensures
        r == corner_blend(cells@, corners@, outside),
{
    let complete: bool = cells.is_complete();
    let mut dropped: bool = false;
    let mut sum: Metrics4<S> = Metrics4::zero();
    let mut k: usize = 0;
    while k < corners.len()
        invariant
            cells.wf(),
            k <= corners@.len(),
            on_table(corners@, cells@.len()),
            complete == all_present(cells@),
            dropped == exists|j: int|
                0 <= j < k && cells@[(#[trigger] corners@[j]).cell as int] is None
                    && corners@[j].weight.notable(),
            sum == weighted_sum(cells@, corners@, k as int),
        decreases corners@.len() - k,
    {
        let corner = corners[k];
        if complete || cells.is_valid(corner.cell) {
            assert(cells@[corner.cell as int] is Some);
            sum.add_scaled(cells.value(corner.cell), corner.weight);
        } else if corner.weight.is_notable() {
            dropped = true;
            assert(cells@[corners@[k as int].cell as int] is None);
        }
        k += 1;
    }
    if !dropped {
        return Some((sum, outside));
    }
    let mut acc: Metrics4<S> = Metrics4::zero();
    let mut weight: S = S::zero();
    let mut k: usize = 0;
    while k < corners.len()
        invariant
            cells.wf(),
            k <= corners@.len(),
            on_table(corners@, cells@.len()),
            acc == convex_sum(cells@, corners@, k as int),
            weight == convex_weight(cells@, corners@, k as int),
        decreases corners@.len() - k,
    {
        let corner = corners[k];
        if cells.is_valid(corner.cell) {
            let share: S = at_least_zero(corner.weight);
            acc.add_scaled(cells.value(corner.cell), share);
            weight = weight.plus(share);
        }
        k += 1;
    }
    if S::zero().below(weight) && weight.is_notable() {
        acc.scale(S::one().over(weight));
        Some((acc, true))
    } else {
        None
    }
}

/// The metrics of the nearest measured corner, or zero if all were dropped.
pub fn take_nearest<S: Scalar>(
    cells: &Cells<S>,
    corners: &Vec<Corner<S>>,
    distances: &Vec<S>,
) -> (r:
    Metrics4<S>)
    requires
        cells.wf(),
        on_table(corners@, cells@.len()),
        distances@.len() == corners@.len(),
    ensures
        r == nearest_metrics(cells@, corners@, distances@),
{
    let mut best: Option<usize> = None;
    let mut k: usize = 0;
    while k < corners.len()
        invariant
            cells.wf(),
            k <= corners@.len(),
            on_table(corners@, cells@.len()),
            distances@.len() == corners@.len(),
            match best {
                Some(b) => b < k && cells@[corners@[b as int].cell as int] is Some
                    && nearest_corner(cells@, corners@, distances@, k as int) == Some(b as int),
                None => nearest_corner(cells@, corners@, distances@, k as int) is None,
            },
        decreases corners@.len() - k,
    {
        if cells.is_valid(corners[k].cell) {
            match best {
                Some(b) => {
                    if distances[k].below(distances[b]) {
                        best = Some(k);
                    }
                },
                None => {
                    best = Some(k);
                },
            }
        }
        k += 1;
    }
    match best {
        Some(b) => cells.value(corners[b].cell),
        None => Metrics4::zero(),
    }
}

/// Corners without weight do not matter, and a lone corner of weight one is returned
/// as it is: a weighted sum in which only corner `at` has weight, and has weight one,
/// is that corner.
pub proof fn lone_corner<S: crate::cache::scalar::NeutralElements>(
    cells: Seq<Option<Metrics4<S>>>,
    corners: Seq<Corner<S>>,
    at: int,
    count: int,
)
    requires
        0 <= at < corners.len(),
        0 <= count <= corners.len(),
        cells[corners[at].cell as int] is Some,
        corners[at].weight == S::one_value(),
        forall|k: int|
            0 <= k < corners.len() && k != at ==> (#[trigger] corners[k]).weight == S::zero_value(),
    ensures
        weighted_sum(cells, corners, count) == (if at < count {
            cells[corners[at].cell as int]->0
        } else {
            Metrics4::nothing()
        }),
    decreases count,
{
    if count > 0 {
        lone_corner(cells, corners, at, count - 1);
        let corner = corners[count - 1];
        let m = cells[corner.cell as int]->0;
        let kept = cells[corners[at].cell as int]->0;
        S::neutral(m.time_ms);
        S::neutral(m.flops);
        S::neutral(m.bytes);
        S::neutral(m.energy_j);
        S::neutral(kept.time_ms);
        S::neutral(kept.flops);
        S::neutral(kept.bytes);
        S::neutral(kept.energy_j);
        S::neutral(S::zero_value());
    }
}

/// A query at a corner reads that corner: where only corner `at` has weight, and has
/// weight one, the blend is that corner, whatever became of the others.
pub proof fn lone_blend<S: crate::cache::scalar::NeutralElements>(
    cells: Seq<Option<Metrics4<S>>>,
    corners: Seq<Corner<S>>,
    distances: Seq<S>,
    outside: bool,
    at: int,
)
    requires
        0 <= at < corners.len(),
        cells[corners[at].cell as int] is Some,
        corners[at].weight == S::one_value(),
        forall|k: int|
            0 <= k < corners.len() && k != at ==> (#[trigger] corners[k]).weight == S::zero_value(),
    ensures
        blended_corners(cells, corners, distances, outside) == (
            cells[corners[at].cell as int]->0,
            outside,
        ),
{
    S::complements();
    lone_corner(cells, corners, at, corners.len() as int);
    assert(!meaningful_drop(cells, corners)) by {
        if meaningful_drop(cells, corners) {
            let k = choose|k: int|
                0 <= k < corners.len() && cells[(#[trigger] corners[k]).cell as int] is None
                    && corners[k].weight.notable();
            assert(k != at);
        }
    }
}

} // verus!
