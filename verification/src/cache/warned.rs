//! Nothing that deserves a warning goes without one.

use crate::cache::cells::{axis_warnings, drop_warnings, last_present, line_warnings, FitWarning};
use crate::cache::direct_1d::Cache1DDirect;
use crate::cache::interp::Metrics4;
use crate::cache::linear_1d::{break_warnings, Cache1DLinear};
use crate::cache::linear_2d::Cache2DLinear;
use crate::cache::linear_3d::{flat, flat_unflat, Cache3DLinear};
use crate::cache::scalar::{Fixed, Scalar};
use vstd::prelude::*;

verus! {

/// In fixed-point numbers, a time that is short of the one before it by more than eleven
/// hundredths is a drop, and one that is short by less than nine hundredths is not.
pub proof fn drop_is_about_a_tenth(before: Metrics4<Fixed>, after: Metrics4<Fixed>)
    requires
        before.time_ms.steps >= 1000,
    ensures
        after.time_ms.steps * 100 < before.time_ms.steps * 89 ==> after.drops_from(before),
        after.time_ms.steps * 100 > before.time_ms.steps * 91 ==> !after.drops_from(before),
{
    let b = before.time_ms.steps as int;
    let most = (b * 943718) / 1048576;
    assert(most * 1048576 <= b * 943718 < (most + 1) * 1048576);
}

/// Every dropped sample is warned about.
pub proof fn every_dropped_sample_is_told<T>(cells: Seq<Option<T>>, k: int)
    requires
        0 <= k < cells.len() <= usize::MAX,
        cells[k] is None,
    ensures
        drop_warnings(cells).contains(FitWarning::Dropped { cell: k as usize }),
    decreases cells.len(),
{
    let front = cells.drop_last();
    let told = FitWarning::Dropped { cell: k as usize };
    if k < front.len() {
        every_dropped_sample_is_told(front, k);
        vstd::seq_lib::lemma_seq_contains_after_push(
            drop_warnings(front),
            FitWarning::Dropped { cell: (cells.len() - 1) as usize },
            told,
        );
    } else {
        vstd::seq_lib::lemma_seq_contains_after_push(drop_warnings(front), told, told);
    }
}

/// What is told in either of two lists of warnings is told in both together.
proof fn told_in_either(a: Seq<FitWarning>, b: Seq<FitWarning>, warning: FitWarning)
    ensures
        a.contains(warning) || b.contains(warning) ==> (a + b).contains(warning),
{
    let all = a + b;
    if a.contains(warning) {
        let i = choose|i: int| 0 <= i < a.len() && a[i] == warning;
        assert(all[i] == warning);
    } else if b.contains(warning) {
        let i = choose|i: int| 0 <= i < b.len() && b[i] == warning;
        assert(all[a.len() + i] == warning);
    }
}

/// The last kept cell before a place is the one behind which all cells up to it were
/// dropped.
proof fn last_present_is<T>(
    cells: Seq<Option<T>>,
    start: int,
    stride: int,
    first: int,
    count: int,
)
    requires
        0 <= first < count,
        cells[start + first * stride] is Some,
        forall|k: int| first < k < count ==> cells[#[trigger] place_of(start, stride, k)] is None,
    ensures
        last_present(cells, start, stride, count) == Some(start + first * stride),
    decreases count,
{
    if first < count - 1 {
        assert(cells[place_of(start, stride, count - 1)] is None);
        last_present_is(cells, start, stride, first, count - 1);
    }
}

/// The cell at a place of a line.
pub open spec fn place_of(start: int, stride: int, k: int) -> int {
    start + k * stride
}

/// Along a line, every kept cell whose time falls short of that of the kept cell before
/// it is warned about.
pub proof fn every_drop_on_a_line_is_told<S: Scalar>(
    cells: Seq<Option<Metrics4<S>>>,
    axis: usize,
    start: int,
    stride: int,
    count: int,
    first: int,
    second: int,
)
    requires
        0 <= first < second < count,
        cells[place_of(start, stride, first)] is Some,
        cells[place_of(start, stride, second)] is Some,
        forall|k: int| first < k < second ==> cells[#[trigger] place_of(start, stride, k)] is None,
        cells[place_of(start, stride, second)]->0.drops_from(
            cells[place_of(start, stride, first)]->0,
        ),
    ensures
        line_warnings(cells, axis, start, stride, count).contains(
            FitWarning::Break {
                axis,
                before: place_of(start, stride, first) as usize,
                after: place_of(start, stride, second) as usize,
            },
        ),
    decreases count,
{
    let told = FitWarning::Break {
        axis,
        before: place_of(start, stride, first) as usize,
        after: place_of(start, stride, second) as usize,
    };
    let earlier = line_warnings(cells, axis, start, stride, count - 1);
    if second < count - 1 {
        every_drop_on_a_line_is_told(cells, axis, start, stride, count - 1, first, second);
        let all = line_warnings(cells, axis, start, stride, count);
        if all != earlier {
            vstd::seq_lib::lemma_seq_contains_after_push(earlier, all.last(), told);
            assert(all =~= earlier.push(all.last()));
        }
    } else {
        last_present_is(cells, start, stride, first, second);
        vstd::seq_lib::lemma_seq_contains_after_push(earlier, told, told);
    }
}

/// What is warned about on a line is warned about along its axis.
proof fn lines_are_scanned<S: Scalar>(
    cells: Seq<Option<Metrics4<S>>>,
    axis: usize,
    stride: int,
    length: int,
    count: int,
    start: int,
    warning: FitWarning,
)
    requires
        0 <= start < count,
        (start / stride) % length == 0,
        line_warnings(cells, axis, start, stride, length).contains(warning),
    ensures
        axis_warnings(cells, axis, stride, length, count).contains(warning),
    decreases count,
{
    let earlier = axis_warnings(cells, axis, stride, length, count - 1);
    let line = line_warnings(cells, axis, count - 1, stride, length);
    if start < count - 1 {
        lines_are_scanned(cells, axis, stride, length, count - 1, start, warning);
    }
    told_in_either(earlier, line, warning);
}

impl<S: Scalar> Cache1DLinear<S> {
    /// Every dropped sample and every drop in time between neighbouring points is warned
    /// about.
    pub proof fn nothing_goes_unwarned(&self, samples: Seq<Option<Metrics4<S>>>, k: int)
        requires
            samples.len() <= usize::MAX,
            self.values().len() <= usize::MAX,
        ensures
            0 <= k < samples.len() && samples[k] is None ==> self.fit_warnings(samples).contains(
                FitWarning::Dropped { cell: k as usize },
            ),
            0 <= k && k + 1 < self.values().len() && self.values()[k + 1].drops_from(
                self.values()[k],
            ) ==> self.fit_warnings(samples).contains(
                FitWarning::Break { axis: 0, before: k as usize, after: (k + 1) as usize },
            ),
    {
        let drops = drop_warnings(samples);
        let breaks = break_warnings(self.values(), self.values().len() as int);
        if 0 <= k < samples.len() && samples[k] is None {
            every_dropped_sample_is_told(samples, k);
            told_in_either(drops, breaks, FitWarning::Dropped { cell: k as usize });
        }
        if 0 <= k && k + 1 < self.values().len() && self.values()[k + 1].drops_from(
            self.values()[k],
        ) {
            every_break_is_told(self.values(), self.values().len() as int, k);
            told_in_either(
                drops,
                breaks,
                FitWarning::Break { axis: 0, before: k as usize, after: (k + 1) as usize },
            );
        }
    }
}

proof fn every_break_is_told<S: Scalar>(metrics: Seq<Metrics4<S>>, count: int, k: int)
    requires
        0 <= k,
        k + 1 < count <= metrics.len() <= usize::MAX,
        metrics[k + 1].drops_from(metrics[k]),
    ensures
        break_warnings(metrics, count).contains(
            FitWarning::Break { axis: 0, before: k as usize, after: (k + 1) as usize },
        ),
    decreases count,
{
    let told = FitWarning::Break { axis: 0, before: k as usize, after: (k + 1) as usize };
    let earlier = break_warnings(metrics, count - 1);
    let last = FitWarning::Break {
        axis: 0,
        before: (count - 2) as usize,
        after: (count - 1) as usize,
    };
    if k + 1 < count - 1 {
        every_break_is_told(metrics, count - 1, k);
    }
    vstd::seq_lib::lemma_seq_contains_after_push(earlier, last, told);
}

impl<S: Scalar> Cache1DDirect<S> {
    /// Every dropped sample is warned about, and every drop in time from a kept bucket to
    /// the next kept one.
    pub proof fn nothing_goes_unwarned(&self, first: int, second: int)
        requires
            0 <= first < self.cells().len() <= usize::MAX,
        ensures
            self.cells()[first] is None ==> self.fit_warnings().contains(
                FitWarning::Dropped { cell: first as usize },
            ),
            self.cells()[first] is Some && first < second < self.cells().len()
                && self.cells()[second] is Some && (forall|k: int|
                first < k < second ==> (#[trigger] self.cells()[k]) is None)
                && self.cells()[second]->0.drops_from(self.cells()[first]->0)
                ==> self.fit_warnings().contains(
                FitWarning::Break { axis: 0, before: first as usize, after: second as usize },
            ),
    {
        let cells = self.cells();
        let n = cells.len() as int;
        let drops = drop_warnings(cells);
        let breaks = axis_warnings(cells, 0, 1, n, n);
        if cells[first] is None {
            every_dropped_sample_is_told(cells, first);
            told_in_either(drops, breaks, FitWarning::Dropped { cell: first as usize });
        } else if first < second < n && cells[second] is Some && (forall|k: int|
            first < k < second ==> (#[trigger] cells[k]) is None) && cells[second]->0.drops_from(
            cells[first]->0,
        ) {
            let told = FitWarning::Break {
                axis: 0,
                before: first as usize,
                after: second as usize,
            };
            assert forall|k: int| first < k < second implies cells[#[trigger] place_of(
                0,
                1,
                k,
            )] is None by {
                assert(cells[k] is None);
            }
            every_drop_on_a_line_is_told(cells, 0, 0, 1, n, first, second);
            vstd::arithmetic::div_mod::lemma_small_mod(0, n as nat);
            lines_are_scanned(cells, 0, 1, n, n, 0, told);
            told_in_either(drops, breaks, told);
        }
    }
}

/// Whether a kept cell's time falls short of an earlier kept one's.
pub open spec fn falls<S: Scalar>(
    cells: Seq<Option<Metrics4<S>>>,
    before: int,
    after: int,
) -> bool {
    &&& 0 <= before < cells.len()
    &&& 0 <= after < cells.len()
    &&& cells[before] is Some
    &&& cells[after] is Some
    &&& cells[after]->0.drops_from(cells[before]->0)
}

/// A line of a grid starts where its axis starts, and stays in the grid.
proof fn line_starts(outer: int, stride: int, length: int, inner: int)
    requires
        outer >= 0,
        0 <= inner < stride,
        length > 0,
    ensures
        ((outer * (length * stride) + inner) / stride) % length == 0,
{
    let start = outer * (length * stride) + inner;
    assert(start == (outer * length) * stride + inner) by (nonlinear_arith)
        requires
            start == outer * (length * stride) + inner,
    ;
    assert(start / stride == outer * length) by {
        vstd::arithmetic::div_mod::lemma_fundamental_div_mod_converse(
            start,
            stride,
            outer * length,
            inner,
        );
    }
    assert(length * outer + 0 == outer * length) by (nonlinear_arith);
    vstd::arithmetic::div_mod::lemma_mod_multiples_vanish(outer, 0, length);
    vstd::arithmetic::div_mod::lemma_small_mod(0, length as nat);
}

/// A drop in time between neighbours along an axis of a grid is warned about.
proof fn neighbours_are_scanned<S: Scalar>(
    cells: Seq<Option<Metrics4<S>>>,
    axis: usize,
    stride: int,
    length: int,
    outer: int,
    inner: int,
    k: int,
)
    requires
        outer >= 0,
        0 <= inner < stride,
        0 <= k,
        k + 1 < length,
        ({
            let start = outer * (length * stride) + inner;
            falls(cells, place_of(start, stride, k), place_of(start, stride, k + 1))
        }),
    ensures
        ({
            let start = outer * (length * stride) + inner;
            axis_warnings(cells, axis, stride, length, cells.len() as int).contains(
                FitWarning::Break {
                    axis,
                    before: place_of(start, stride, k) as usize,
                    after: place_of(start, stride, k + 1) as usize,
                },
            )
        }),
{
    let start = outer * (length * stride) + inner;
    let told = FitWarning::Break {
        axis,
        before: place_of(start, stride, k) as usize,
        after: place_of(start, stride, k + 1) as usize,
    };
    assert(0 <= start <= place_of(start, stride, k)) by (nonlinear_arith)
        requires
            start == outer * (length * stride) + inner,
            place_of(start, stride, k) == start + k * stride,
            outer >= 0,
            length > 0,
            stride > 0,
            inner >= 0,
            k >= 0,
    ;
    every_drop_on_a_line_is_told(cells, axis, start, stride, length, k, k + 1);
    line_starts(outer, stride, length, inner);
    lines_are_scanned(cells, axis, stride, length, cells.len() as int, start, told);
}

impl<S: Scalar> Cache2DLinear<S> {
    /// Every dropped sample is warned about, and every drop in time between neighbouring
    /// kept cells, along the rows and along the columns.
    pub proof fn nothing_goes_unwarned(&self, i: int, j: int)
        requires
            0 <= i < self.points0().len(),
            0 <= j < self.points1().len(),
            self.grid().len() == self.points0().len() * self.points1().len(),
            self.grid().len() <= usize::MAX,
        ensures
            ({
                let columns = self.points1().len() as int;
                let at = i * columns + j;
                &&& self.grid()[at] is None ==> self.fit_warnings().contains(
                    FitWarning::Dropped { cell: at as usize },
                )
                &&& j + 1 < columns && falls(self.grid(), at, at + 1)
                    ==> self.fit_warnings().contains(
                    FitWarning::Break { axis: 1, before: at as usize, after: (at + 1) as usize },
                )
                &&& i + 1 < self.points0().len() && falls(self.grid(), at, at + columns)
                    ==> self.fit_warnings().contains(
                    FitWarning::Break {
                        axis: 0,
                        before: at as usize,
                        after: (at + columns) as usize,
                    },
                )
            }),
    {
        let cells = self.grid();
        let rows = self.points0().len() as int;
        let columns = self.points1().len() as int;
        let at = i * columns + j;
        let drops = drop_warnings(cells);
        let along = axis_warnings(cells, 1, 1, columns, cells.len() as int);
        let across = axis_warnings(cells, 0, columns, rows, cells.len() as int);
        assert(0 <= at < rows * columns) by (nonlinear_arith)
            requires
                at == i * columns + j,
                0 <= i < rows,
                0 <= j < columns,
        ;
        if cells[at] is None {
            let told = FitWarning::Dropped { cell: at as usize };
            every_dropped_sample_is_told(cells, at);
            told_in_either(drops, along, told);
            told_in_either(drops + along, across, told);
        }
        if j + 1 < columns && falls(cells, at, at + 1) {
            let told = FitWarning::Break { axis: 1, before: at as usize, after: (at + 1) as usize };
            assert(i * (columns * 1) + 0 + j * 1 == at);
            neighbours_are_scanned(cells, 1, 1, columns, i, 0, j);
            told_in_either(drops, along, told);
            told_in_either(drops + along, across, told);
        }
        if i + 1 < rows && falls(cells, at, at + columns) {
            let told = FitWarning::Break {
                axis: 0,
                before: at as usize,
                after: (at + columns) as usize,
            };
            assert(0 * (rows * columns) == 0);
            assert((i + 1) * columns == i * columns + columns) by (nonlinear_arith);
            neighbours_are_scanned(cells, 0, columns, rows, 0, j, i);
            told_in_either(drops + along, across, told);
        }
    }
}

impl<S: Scalar> Cache3DLinear<S> {
    /// Every dropped sample is warned about, and every drop in time between neighbouring
    /// kept cells, along each of the axes.
    pub proof fn nothing_goes_unwarned(&self, i: int, j: int, k: int)
        requires
            0 <= i < self.points0().len(),
            0 <= j < self.points1().len(),
            0 <= k < self.points2().len(),
            self.grid().len() == self.points0().len() * self.points1().len()
                * self.points2().len(),
            self.grid().len() <= usize::MAX,
        ensures
            ({
                let d1 = self.points1().len() as int;
                let d2 = self.points2().len() as int;
                let at = flat(d1, d2, i, j, k);
                &&& self.grid()[at] is None ==> self.fit_warnings().contains(
                    FitWarning::Dropped { cell: at as usize },
                )
                &&& i + 1 < self.points0().len() && falls(
                    self.grid(),
                    at,
                    flat(d1, d2, i + 1, j, k),
                ) ==> self.fit_warnings().contains(
                    FitWarning::Break {
                        axis: 0,
                        before: at as usize,
                        after: flat(d1, d2, i + 1, j, k) as usize,
                    },
                )
                &&& j + 1 < d1 && falls(self.grid(), at, flat(d1, d2, i, j + 1, k))
                    ==> self.fit_warnings().contains(
                    FitWarning::Break {
                        axis: 1,
                        before: at as usize,
                        after: flat(d1, d2, i, j + 1, k) as usize,
                    },
                )
                &&& k + 1 < d2 && falls(self.grid(), at, flat(d1, d2, i, j, k + 1))
                    ==> self.fit_warnings().contains(
                    FitWarning::Break {
                        axis: 2,
                        before: at as usize,
                        after: flat(d1, d2, i, j, k + 1) as usize,
                    },
                )
            }),
    {
        let cells = self.grid();
        let n = cells.len() as int;
        let d0 = self.points0().len() as int;
        let d1 = self.points1().len() as int;
        let d2 = self.points2().len() as int;
        let at = flat(d1, d2, i, j, k);
        let drops = drop_warnings(cells);
        let first = axis_warnings(cells, 0, d1 * d2, d0, n);
        let second = axis_warnings(cells, 1, d2, d1, n);
        let third = axis_warnings(cells, 2, 1, d2, n);
        if cells[at] is None {
            let told = FitWarning::Dropped { cell: at as usize };
            flat_unflat(d0, d1, d2, i, j, k);
            every_dropped_sample_is_told(cells, at);
            told_in_either(drops, first, told);
            told_in_either(drops + first, second, told);
            told_in_either(drops + first + second, third, told);
        }
        if i + 1 < d0 && falls(cells, at, flat(d1, d2, i + 1, j, k)) {
            let after = flat(d1, d2, i + 1, j, k);
            let told = FitWarning::Break { axis: 0, before: at as usize, after: after as usize };
            let inner = j * d2 + k;
            assert(0 <= inner < d1 * d2) by (nonlinear_arith)
                requires
                    inner == j * d2 + k,
                    0 <= j < d1,
                    0 <= k < d2,
            ;
            assert(0 * (d0 * (d1 * d2)) == 0) by (nonlinear_arith);
            assert((i * d1 + j) * d2 + k == inner + i * (d1 * d2)) by (nonlinear_arith)
                requires
                    inner == j * d2 + k,
            ;
            assert(((i + 1) * d1 + j) * d2 + k == inner + (i + 1) * (d1 * d2)) by (nonlinear_arith)
                requires
                    inner == j * d2 + k,
            ;
            neighbours_are_scanned(cells, 0, d1 * d2, d0, 0, inner, i);
            told_in_either(drops, first, told);
            told_in_either(drops + first, second, told);
            told_in_either(drops + first + second, third, told);
        }
        if j + 1 < d1 && falls(cells, at, flat(d1, d2, i, j + 1, k)) {
            let after = flat(d1, d2, i, j + 1, k);
            let told = FitWarning::Break { axis: 1, before: at as usize, after: after as usize };
            assert((i * d1 + j) * d2 + k == i * (d1 * d2) + k + j * d2) by (nonlinear_arith);
            assert((i * d1 + (j + 1)) * d2 + k == i * (d1 * d2) + k + (j + 1) * d2)
                by (nonlinear_arith);
            neighbours_are_scanned(cells, 1, d2, d1, i, k, j);
            told_in_either(drops + first, second, told);
            told_in_either(drops + first + second, third, told);
        }
        if k + 1 < d2 && falls(cells, at, flat(d1, d2, i, j, k + 1)) {
            let after = flat(d1, d2, i, j, k + 1);
            let told = FitWarning::Break { axis: 2, before: at as usize, after: after as usize };
            let outer = i * d1 + j;
            assert(outer >= 0) by (nonlinear_arith)
                requires
                    outer == i * d1 + j,
                    i >= 0,
                    j >= 0,
                    d1 >= 0,
            ;
            assert(outer * (d2 * 1) == outer * d2) by (nonlinear_arith);
            neighbours_are_scanned(cells, 2, 1, d2, outer, 0, k);
            told_in_either(drops + first + second, third, told);
        }
    }
}

} // verus!
