//! Trilinear interpolation over a rectangular grid of three axes.

use crate::cache::cells::{
    all_name_cells, any_present, axis_names_cells, axis_warnings, drop_warnings, drops_name_cells,
    gathered, joined_name_cells, kept_time, scan_axis, Cells, FitWarning,
};
use crate::cache::corners::{
    blend_corners, blended_corners, lone_blend, on_table, take_nearest, Corner,
};
use crate::cache::interp::{
    all_defined, in_order, locate, located, located_at_point, well_spaced, LeafMetrics, Located,
    Metrics4,
};
use crate::cache::linear_2d::{along, distance_along, square, squared};
use crate::cache::order::{
    all_points_defined, arrange_narrowed, arranged, is_stable_order, lists_first, narrowed_points,
    sort_order, stable_order,
};
use crate::cache::peak::{peak_of, peak_over_cells, PeakRates};
use crate::cache::scalar::{NeutralElements, Scalar};
use crate::cache::Cache;
use vstd::prelude::*;

verus! {

/// A table over three axes. The points of all three ascend; cells stand in row-major
/// order, the last axis varying fastest.
#[derive(Clone, Debug)]
pub struct Cache3DLinear<S> {
    xs0: Vec<S>,
    xs1: Vec<S>,
    xs2: Vec<S>,
    cells: Cells<S>,
}

/// The place of a cell in row-major order.
pub open spec fn flat(d1: int, d2: int, i: int, j: int, k: int) -> int {
    (i * d1 + j) * d2 + k
}

/// The coordinates of the cell at a place.
pub open spec fn unflat(d1: int, d2: int, index: int) -> (int, int, int) {
    ((index / d2) / d1, (index / d2) % d1, index % d2)
}

/// Every cell of a table has its own place within it, and the coordinates of a place
/// are those of the cell that stands there.
pub proof fn flat_unflat(d0: int, d1: int, d2: int, i: int, j: int, k: int)
    requires
        0 <= i < d0,
        0 <= j < d1,
        0 <= k < d2,
    ensures
        0 <= i * d1 + j < d0 * d1,
        0 <= (i * d1 + j) * d2,
        0 <= flat(d1, d2, i, j, k) < d0 * d1 * d2,
        unflat(d1, d2, flat(d1, d2, i, j, k)) == (i, j, k),
{
    let row = i * d1 + j;
    assert(0 <= i * d1 && row < d0 * d1) by (nonlinear_arith)
        requires
            0 <= i < d0,
            0 <= j < d1,
            row == i * d1 + j,
    ;
    assert(0 <= row * d2 && row * d2 + k < d0 * d1 * d2) by (nonlinear_arith)
        requires
            0 <= row < d0 * d1,
            0 <= k < d2,
    ;
    vstd::arithmetic::div_mod::lemma_fundamental_div_mod_converse(row * d2 + k, d2, row, k);
    vstd::arithmetic::div_mod::lemma_fundamental_div_mod_converse(row, d1, i, j);
}

/// Every place of a table is that of exactly one cell.
pub proof fn unflat_flat(d0: int, d1: int, d2: int, index: int)
    requires
        d1 > 0,
        d2 > 0,
        0 <= index < d0 * d1 * d2,
    ensures
        ({
            let (i, j, k) = unflat(d1, d2, index);
            0 <= i < d0 && 0 <= j < d1 && 0 <= k < d2 && flat(d1, d2, i, j, k) == index
        }),
{
    let row = index / d2;
    let k = index % d2;
    assert(index == d2 * row + k && 0 <= k < d2 && 0 <= row) by (nonlinear_arith)
        requires
            d2 > 0,
            index >= 0,
            row == index / d2,
            k == index % d2,
    ;
    assert(row < d0 * d1) by (nonlinear_arith)
        requires
            d2 * row <= index,
            index < d0 * d1 * d2,
            d2 > 0,
    ;
    let i = row / d1;
    let j = row % d1;
    assert(row == d1 * i + j && 0 <= j < d1 && 0 <= i) by (nonlinear_arith)
        requires
            d1 > 0,
            row >= 0,
            i == row / d1,
            j == row % d1,
    ;
    assert(i < d0) by (nonlinear_arith)
        requires
            d1 * i <= row,
            row < d0 * d1,
            d1 > 0,
    ;
    assert((i * d1 + j) * d2 + k == index) by (nonlinear_arith)
        requires
            row == d1 * i + j,
            index == d2 * row + k,
    ;
}

/// The place of a cell in row-major order.
pub fn flat_index(dims: (usize, usize, usize), cell: (usize, usize, usize)) -> (r: usize)
    requires
        cell.0 < dims.0,
        cell.1 < dims.1,
        cell.2 < dims.2,
        dims.0 * dims.1 * dims.2 <= usize::MAX,
    ensures
        r == flat(dims.1 as int, dims.2 as int, cell.0 as int, cell.1 as int, cell.2 as int),
        r < dims.0 * dims.1 * dims.2,
{
    let (i, j, k) = cell;
    proof {
        flat_unflat(dims.0 as int, dims.1 as int, dims.2 as int, i as int, j as int, k as int);
        assert(dims.0 * dims.1 <= dims.0 * dims.1 * dims.2) by (nonlinear_arith)
            requires
                dims.2 >= 1,
                dims.0 * dims.1 >= 0,
        ;
    }
    (i * dims.1 + j) * dims.2 + k
}

/// The coordinates of the cell at a place.
pub fn decode_index(dims: (usize, usize, usize), index: usize) -> (r: (usize, usize, usize))
    requires
        dims.1 > 0,
        dims.2 > 0,
        index < dims.0 * dims.1 * dims.2,
    ensures
        (r.0 as int, r.1 as int, r.2 as int) == unflat(dims.1 as int, dims.2 as int, index as int),
        r.0 < dims.0,
        r.1 < dims.1,
        r.2 < dims.2,
{
    proof {
        unflat_flat(dims.0 as int, dims.1 as int, dims.2 as int, index as int);
    }
    ((index / dims.2) / dims.1, (index / dims.2) % dims.1, index % dims.2)
}

/// Which sample goes into each cell when the axes are put in the given orders.
pub open spec fn source_3d(
    order0: Seq<usize>,
    order1: Seq<usize>,
    order2: Seq<usize>,
) -> Seq<usize> {
    let d1 = order1.len() as int;
    let d2 = order2.len() as int;
    Seq::new(
        order0.len() * order1.len() * order2.len(),
        |index: int|
            {
                let (i, j, k) = unflat(d1, d2, index);
                flat(d1, d2, order0[i] as int, order1[j] as int, order2[k] as int) as usize
            },
    )
}

fn sources(
    order0: &Vec<usize>,
    order1: &Vec<usize>,
    order2: &Vec<usize>,
    count: usize,
) -> (r: Vec<usize>)
    requires
        lists_first(order0@, order0@.len() as int),
        lists_first(order1@, order1@.len() as int),
        lists_first(order2@, order2@.len() as int),
        count == order0@.len() * order1@.len() * order2@.len(),
    ensures
        r@ == source_3d(order0@, order1@, order2@),
        forall|k: int| 0 <= k < r@.len() ==> #[trigger] r@[k] < count,
{
    let dims: (usize, usize, usize) = (order0.len(), order1.len(), order2.len());
    let mut out: Vec<usize> = Vec::new();
    let mut index: usize = 0;
    while index < count
        invariant
            lists_first(order0@, order0@.len() as int),
            lists_first(order1@, order1@.len() as int),
            lists_first(order2@, order2@.len() as int),
            dims.0 == order0@.len(),
            dims.1 == order1@.len(),
            dims.2 == order2@.len(),
            index <= count,
            count == dims.0 * dims.1 * dims.2,
            out@.len() == index,
            forall|m: int|
                0 <= m < index ==> #[trigger] out@[m] == source_3d(order0@, order1@, order2@)[m]
                    && out@[m] < count,
        decreases count - index,
    {
        assert(dims.1 > 0 && dims.2 > 0) by (nonlinear_arith)
            requires
                dims.0 * dims.1 * dims.2 > 0,
                dims.0 >= 0,
                dims.1 >= 0,
                dims.2 >= 0,
        ;
        let (i, j, k) = decode_index(dims, index);
        let at: usize = flat_index(dims, (order0[i], order1[j], order2[k]));
        out.push(at);
        index += 1;
    }
    assert(out@ =~= source_3d(order0@, order1@, order2@));
    out
}

/// The low or high end of a segment.
pub open spec fn end_of<S>(at: Located<S>, high: bool) -> usize {
    if high {
        at.high
    } else {
        at.low
    }
}

/// The weight of that end.
pub open spec fn share_of<S: Scalar>(at: Located<S>, high: bool) -> S {
    if high {
        at.t
    } else {
        S::one_value().difference(at.t)
    }
}

/// One corner and its trilinear weight.
pub open spec fn corner_3d<S: Scalar>(
    a: Located<S>,
    b: Located<S>,
    c: Located<S>,
    d1: int,
    d2: int,
    high: (bool, bool, bool),
) -> Corner<S> {
    Corner {
        cell: flat(
            d1,
            d2,
            end_of(a, high.0) as int,
            end_of(b, high.1) as int,
            end_of(c, high.2) as int,
        ) as usize,
        weight: S::one_value().product(share_of(a, high.0)).product(share_of(b, high.1)).product(
            share_of(c, high.2),
        ),
    }
}

/// The ends of corner `k`: the first axis alternates fastest.
pub open spec fn corner_ends(k: int) -> (bool, bool, bool) {
    (k % 2 == 1, (k / 2) % 2 == 1, k / 4 == 1)
}

/// The eight corners around a query and their trilinear weights.
pub open spec fn corners_3d<S: Scalar>(
    a: Located<S>,
    b: Located<S>,
    c: Located<S>,
    d1: int,
    d2: int,
) -> Seq<Corner<S>> {
    Seq::new(8, |k: int| corner_3d(a, b, c, d1, d2, corner_ends(k)))
}

/// The squared distances of a query from its eight corners.
pub open spec fn distances_3d<S: Scalar>(
    xs0: Seq<S>,
    xs1: Seq<S>,
    xs2: Seq<S>,
    a: Located<S>,
    b: Located<S>,
    c: Located<S>,
    x: (S, S, S),
) -> Seq<S> {
    Seq::new(
        8,
        |k: int|
            {
                let (h0, h1, h2) = corner_ends(k);
                squared(distance_along(xs0, a, x.0, end_of(a, h0))).sum(
                    squared(distance_along(xs1, b, x.1, end_of(b, h1))),
                ).sum(squared(distance_along(xs2, c, x.2, end_of(c, h2))))
            },
    )
}

/// The trilinear surface at a point, extended past the ends of the grid by its own
/// weights.
pub open spec fn trilinear<S: Scalar>(
    xs0: Seq<S>,
    xs1: Seq<S>,
    xs2: Seq<S>,
    cells: Seq<Option<Metrics4<S>>>,
    x: (S, S, S),
) -> (Metrics4<S>, bool) {
    let a = located(xs0, x.0);
    let b = located(xs1, x.1);
    let c = located(xs2, x.2);
    blended_corners(
        cells,
        corners_3d(a, b, c, xs1.len() as int, xs2.len() as int),
        distances_3d(xs0, xs1, xs2, a, b, c, x),
        a.outside || b.outside || c.outside,
    )
}

fn end_at<S: Scalar>(at: &Located<S>, high: bool) -> (r: usize)
    ensures
        r == end_of(*at, high),
{
    if high {
        at.high
    } else {
        at.low
    }
}

fn share_at<S: Scalar>(at: &Located<S>, high: bool) -> (r: S)
    ensures
        r == share_of(*at, high),
{
    if high {
        at.t
    } else {
        S::one().minus(at.t)
    }
}

impl<S: Scalar> Cache3DLinear<S> {
    pub closed spec fn points0(&self) -> Seq<S> {
        self.xs0@
    }

    pub closed spec fn points1(&self) -> Seq<S> {
        self.xs1@
    }

    pub closed spec fn points2(&self) -> Seq<S> {
        self.xs2@
    }

    /// The cells in row-major order; a dropped sample leaves its cell empty.
    pub closed spec fn grid(&self) -> Seq<Option<Metrics4<S>>> {
        self.cells@
    }

    /// Whether the table holds these samples: its axes are the sweep's in ascending
    /// order, then narrowed, and each cell holds the sample of its own three coordinates.
    pub open spec fn fits(
        &self,
        axis0: Seq<S::Wide>,
        axis1: Seq<S::Wide>,
        axis2: Seq<S::Wide>,
        samples: Seq<Option<Metrics4<S>>>,
    ) -> bool {
        let order0 = stable_order(axis0);
        let order1 = stable_order(axis1);
        let order2 = stable_order(axis2);
        &&& is_stable_order(axis0, order0)
        &&& is_stable_order(axis1, order1)
        &&& is_stable_order(axis2, order2)
        &&& self.points0() == narrowed_points::<S>(arranged(axis0, order0))
        &&& self.points1() == narrowed_points::<S>(arranged(axis1, order1))
        &&& self.points2() == narrowed_points::<S>(arranged(axis2, order2))
        &&& self.grid() == gathered(samples, source_3d(order0, order1, order2))
    }

    /// The warnings of fitting the table: dropped samples, then drops in time along each
    /// axis in turn.
    pub open spec fn fit_warnings(&self) -> Seq<FitWarning> {
        let d0 = self.points0().len() as int;
        let d1 = self.points1().len() as int;
        let d2 = self.points2().len() as int;
        let cells = self.grid();
        let n = cells.len() as int;
        drop_warnings(cells) + axis_warnings(cells, 0, d1 * d2, d0, n) + axis_warnings(
            cells,
            1,
            d2,
            d1,
            n,
        ) + axis_warnings(cells, 2, 1, d2, n)
    }

    /// Every warning of a fitted table names an empty cell, or two kept ones of which the
    /// later takes less time.
    pub proof fn warnings_name_cells(&self)
        requires
            self.wf(),
        ensures
            all_name_cells(self.fit_warnings(), self.grid()),
    {
        let cells = self.grid();
        let n = cells.len() as int;
        let d0 = self.points0().len() as int;
        let d1 = self.points1().len() as int;
        let d2 = self.points2().len() as int;
        self.cells.len_in_range();
        assert(1 * d0 * (d1 * d2) == n && d0 * d1 * d2 == n && (d0 * d1) * d2 * 1 == n)
            by (nonlinear_arith)
            requires
                n == d0 * d1 * d2,
        ;
        assert(d0 * d1 >= 0) by (nonlinear_arith)
            requires
                d0 >= 0,
                d1 >= 0,
        ;
        if n > 0 {
            assert(d0 > 0 && d1 > 0 && d2 > 0 && d1 * d2 > 0) by (nonlinear_arith)
                requires
                    d0 * d1 * d2 > 0,
                    d0 >= 0,
                    d1 >= 0,
                    d2 >= 0,
            ;
        }
        let drops = drop_warnings(cells);
        let first = axis_warnings(cells, 0, d1 * d2, d0, n);
        let second = axis_warnings(cells, 1, d2, d1, n);
        let third = axis_warnings(cells, 2, 1, d2, n);
        drops_name_cells(cells);
        axis_names_cells(cells, 0, d1 * d2, d0, 1, n);
        axis_names_cells(cells, 1, d2, d1, d0, n);
        axis_names_cells(cells, 2, 1, d2, d0 * d1, n);
        joined_name_cells(drops, first, cells);
        joined_name_cells(drops + first, second, cells);
        joined_name_cells(drops + first + second, third, cells);
    }

    /// Fit a table to the samples of a sweep, which stand in row-major order; a missing
    /// sample is dropped.
    pub fn from_samples(
        axis0: &Vec<S::Wide>,
        axis1: &Vec<S::Wide>,
        axis2: &Vec<S::Wide>,
        samples: &Vec<Option<Metrics4<S>>>,
    ) -> (r: (Self, Vec<FitWarning>))
        requires
            all_points_defined(axis0@),
            all_points_defined(axis1@),
            all_points_defined(axis2@),
            samples@.len() == axis0@.len() * axis1@.len() * axis2@.len(),
            axis1@.len() * axis2@.len() <= usize::MAX,
        ensures
            r.0.wf(),
            r.0.fits(axis0@, axis1@, axis2@, samples@),
            r.1@ == r.0.fit_warnings(),
    {
        let order0: Vec<usize> = sort_order(axis0);
        let order1: Vec<usize> = sort_order(axis1);
        let order2: Vec<usize> = sort_order(axis2);
        let xs0: Vec<S> = arrange_narrowed(axis0, &order0);
        let xs1: Vec<S> = arrange_narrowed(axis1, &order1);
        let xs2: Vec<S> = arrange_narrowed(axis2, &order2);
        let source: Vec<usize> = sources(&order0, &order1, &order2, samples.len());
        let (cells, mut warnings) = Cells::gather(samples, &source);
        let d0: usize = xs0.len();
        let d1: usize = xs1.len();
        let d2: usize = xs2.len();
        proof {
            assert(1 * d0 * (d1 * d2) == d0 * d1 * d2 && d0 * d1 * d2 == d0 * d1 * d2 && (d0 * d1)
                * d2 * 1 == d0 * d1 * d2) by (nonlinear_arith);
            assert(0 <= d0 * d1) by (nonlinear_arith)
                requires
                    0 <= d0,
                    0 <= d1,
            ;
            if d0 * d1 * d2 > 0 {
                assert(d0 > 0 && d1 > 0 && d2 > 0 && d1 * d2 > 0) by (nonlinear_arith)
                    requires
                        d0 * d1 * d2 > 0,
                        d0 >= 0,
                        d1 >= 0,
                        d2 >= 0,
                ;
            }
        }
        scan_axis(&cells, 0, d1 * d2, d0, Ghost(1), &mut warnings);
        scan_axis(&cells, 1, d2, d1, Ghost(d0 as int), &mut warnings);
        scan_axis(&cells, 2, 1, d2, Ghost(d0 * d1), &mut warnings);
        (Cache3DLinear { xs0, xs1, xs2, cells }, warnings)
    }

    /// A table with cells has points on all axes.
    proof fn shape(&self)
        requires
            self.wf(),
            self.grid().len() > 0,
        ensures
            self.xs0@.len() > 0,
            self.xs1@.len() > 0,
            self.xs2@.len() > 0,
    {
        assert(self.xs0@.len() > 0 && self.xs1@.len() > 0 && self.xs2@.len() > 0)
            by (nonlinear_arith)
            requires
                self.xs0@.len() * self.xs1@.len() * self.xs2@.len() > 0,
        ;
    }

    /// The trilinear surface at a point.
    pub fn interpolate_cell(&self, x0: S, x1: S, x2: S) -> (r: (Metrics4<S>, bool))
        requires
            self.wf(),
            self.grid().len() > 0,
            !x0.undefined(),
            !x1.undefined(),
            !x2.undefined(),
        ensures
            r == trilinear(
                self.points0(),
                self.points1(),
                self.points2(),
                self.grid(),
                (x0, x1, x2),
            ),
    {
        proof {
            self.shape();
            self.cells.len_in_range();
        }
        let dims: (usize, usize, usize) = (self.xs0.len(), self.xs1.len(), self.xs2.len());
        let a: Located<S> = locate(&self.xs0, x0);
        let b: Located<S> = locate(&self.xs1, x1);
        let c: Located<S> = locate(&self.xs2, x2);
        let ghost all = corners_3d(a, b, c, dims.1 as int, dims.2 as int);
        let mut corners: Vec<Corner<S>> = Vec::new();
        let mut k: usize = 0;
        while k < 8
            invariant
                k <= 8,
                dims.0 * dims.1 * dims.2 == self.cells@.len(),
                self.cells@.len() <= usize::MAX,
                a.low < dims.0,
                a.high < dims.0,
                b.low < dims.1,
                b.high < dims.1,
                c.low < dims.2,
                c.high < dims.2,
                all == corners_3d(a, b, c, dims.1 as int, dims.2 as int),
                corners@.len() == k,
                forall|m: int|
                    0 <= m < k ==> #[trigger] corners@[m] == all[m] && corners@[m].cell
                        < self.cells@.len(),
            decreases 8 - k,
        {
            let h0: bool = k % 2 == 1;
            let h1: bool = (k / 2) % 2 == 1;
            let h2: bool = k / 4 == 1;
            let cell: usize = flat_index(dims, (end_at(&a, h0), end_at(&b, h1), end_at(&c, h2)));
            let weight: S = S::one().times(share_at(&a, h0)).times(share_at(&b, h1)).times(
                share_at(&c, h2),
            );
            corners.push(Corner { cell, weight });
            k += 1;
        }
        assert(corners@ =~= all);
        match blend_corners(&self.cells, &corners, a.outside || b.outside || c.outside) {
            Some(blend) => blend,
            None => {
                let ghost away = distances_3d(
                    self.xs0@,
                    self.xs1@,
                    self.xs2@,
                    a,
                    b,
                    c,
                    (x0, x1, x2),
                );
                let mut distances: Vec<S> = Vec::new();
                let mut k: usize = 0;
                while k < 8
                    invariant
                        k <= 8,
                        a.low < self.xs0@.len(),
                        a.high < self.xs0@.len(),
                        b.low < self.xs1@.len(),
                        b.high < self.xs1@.len(),
                        c.low < self.xs2@.len(),
                        c.high < self.xs2@.len(),
                        away == distances_3d(
                            self.xs0@,
                            self.xs1@,
                            self.xs2@,
                            a,
                            b,
                            c,
                            (x0, x1, x2),
                        ),
                        distances@.len() == k,
                        forall|m: int| 0 <= m < k ==> #[trigger] distances@[m] == away[m],
                    decreases 8 - k,
                {
                    let e0: usize = end_at(&a, k % 2 == 1);
                    let e1: usize = end_at(&b, (k / 2) % 2 == 1);
                    let e2: usize = end_at(&c, k / 4 == 1);
                    let d0: S = square(along(&self.xs0, &a, x0, e0));
                    let d1: S = square(along(&self.xs1, &b, x1, e1));
                    let d2: S = square(along(&self.xs2, &c, x2, e2));
                    distances.push(d0.plus(d1).plus(d2));
                    k += 1;
                }
                assert(distances@ =~= away);
                (take_nearest(&self.cells, &corners, &distances), true)
            },
        }
    }

    /// A table gives back each of its samples at its own point, as one that is on the
    /// grid, whatever other samples were dropped.
    pub proof fn reproduces_samples(&self, i: int, j: int, k: int)
        where S: NeutralElements
        requires
            self.wf(),
            0 <= i < self.points0().len(),
            0 <= j < self.points1().len(),
            0 <= k < self.points2().len(),
            well_spaced(self.points0()),
            well_spaced(self.points1()),
            well_spaced(self.points2()),
            self.grid()[flat(
                self.points1().len() as int,
                self.points2().len() as int,
                i,
                j,
                k,
            )] is Some,
        ensures
            ({
                let d1 = self.points1().len() as int;
                let d2 = self.points2().len() as int;
                self.reading(
                    seq![self.points0()[i], self.points1()[j], self.points2()[k]],
                ) == Some((self.grid()[flat(d1, d2, i, j, k)]->0, false))
            }),
    {
        let xs0 = self.points0();
        let xs1 = self.points1();
        let xs2 = self.points2();
        let d0 = xs0.len() as int;
        let d1 = xs1.len() as int;
        let d2 = xs2.len() as int;
        assert(self.xs0.len() == d0 && self.xs1.len() == d1 && self.xs2.len() == d2);
        self.cells.len_in_range();
        located_at_point(xs0, i);
        located_at_point(xs1, j);
        located_at_point(xs2, k);
        let a = located(xs0, xs0[i]);
        let b = located(xs1, xs1[j]);
        let c = located(xs2, xs2[k]);
        let corners = corners_3d(a, b, c, d1, d2);
        assert forall|m: int| 0 <= m < 8 implies (#[trigger] corners[m]).cell
            < self.grid().len() by {
            let (h0, h1, h2) = corner_ends(m);
            flat_unflat(
                d0,
                d1,
                d2,
                end_of(a, h0) as int,
                end_of(b, h1) as int,
                end_of(c, h2) as int,
            );
        }
        assert(on_table(corners, self.grid().len()));
        S::complements();
        S::neutral(S::zero_value());
        S::neutral(S::one_value());
        let h0 = !(a.low == i && a.t == S::zero_value());
        let h1 = !(b.low == j && b.t == S::zero_value());
        let h2 = !(c.low == k && c.t == S::zero_value());
        let at = (if h0 {
            1int
        } else {
            0
        }) + (if h1 {
            2int
        } else {
            0
        }) + (if h2 {
            4int
        } else {
            0
        });
        assert(corner_ends(at) == (h0, h1, h2));
        flat_unflat(d0, d1, d2, i, j, k);
        assert(corners[at].cell == flat(d1, d2, i, j, k));
        assert(corners[at].weight == S::one_value());
        assert forall|m: int| 0 <= m < 8 && m != at implies (#[trigger] corners[m]).weight
            == S::zero_value() by {
            let (g0, g1, g2) = corner_ends(m);
            assert(g0 != h0 || g1 != h1 || g2 != h2);
        }
        lone_blend(
            self.grid(),
            corners,
            distances_3d(xs0, xs1, xs2, a, b, c, (xs0[i], xs1[j], xs2[k])),
            a.outside || b.outside || c.outside,
            at,
        );
        assert(any_present(self.grid())) by {
            assert(self.grid()[flat(d1, d2, i, j, k)] is Some);
        }
        assert(!xs0[i].undefined() && !xs1[j].undefined() && !xs2[k].undefined());
    }
}

impl<S: Scalar> Cache<S> for Cache3DLinear<S> {
    closed spec fn wf(&self) -> bool {
        &&& self.cells.wf()
        &&& all_defined(self.xs0@)
        &&& all_defined(self.xs1@)
        &&& all_defined(self.xs2@)
        &&& in_order(self.xs0@)
        &&& in_order(self.xs1@)
        &&& in_order(self.xs2@)
        &&& self.cells@.len() == self.xs0@.len() * self.xs1@.len() * self.xs2@.len()
    }

    open spec fn arity(&self) -> nat {
        3
    }

    open spec fn reading(&self, sweep: Seq<S>) -> Option<(Metrics4<S>, bool)> {
        if sweep[0].undefined() || sweep[1].undefined() || sweep[2].undefined() || !any_present(
            self.grid(),
        ) {
            None
        } else {
            Some(
                trilinear(
                    self.points0(),
                    self.points1(),
                    self.points2(),
                    self.grid(),
                    (sweep[0], sweep[1], sweep[2]),
                ),
            )
        }
    }

    open spec fn best_rates(&self) -> PeakRates<S::Wide> {
        peak_of(self.grid(), self.grid().len() as int)
    }

    open spec fn held(&self, cell: int) -> Option<(Seq<S>, Option<S>)> {
        let (i, j, k) = unflat(self.points1().len() as int, self.points2().len() as int, cell);
        if 0 <= cell < self.grid().len() {
            Some(
                (
                    seq![self.points0()[i], self.points1()[j], self.points2()[k]],
                    kept_time(self.grid()[cell]),
                ),
            )
        } else {
            None
        }
    }

    fn eval(&self, sweep: &Vec<S>) -> (r: LeafMetrics<S>) {
        let x0: S = sweep[0];
        let x1: S = sweep[1];
        let x2: S = sweep[2];
        if x0.is_nan() || x1.is_nan() || x2.is_nan() || !self.cells.has_any() {
            return LeafMetrics::miss();
        }
        let (m, outside) = self.interpolate_cell(x0, x1, x2);
        LeafMetrics::value(m, outside)
    }

    fn peak_rates(&self) -> (r: PeakRates<S::Wide>) {
        peak_over_cells(&self.cells)
    }

    fn cell(&self, cell: usize) -> (r: Option<(Vec<S>, Option<S>)>) {
        if cell >= self.cells.len() {
            return None;
        }
        let dims: (usize, usize, usize) = (self.xs0.len(), self.xs1.len(), self.xs2.len());
        let ghost (a, b, c) = (dims.0 as int, dims.1 as int, dims.2 as int);
        assert(b > 0 && c > 0) by (nonlinear_arith)
            requires
                0 < a * b * c,
                a >= 0,
                b >= 0,
                c >= 0,
        ;
        let (i, j, k) = decode_index(dims, cell);
        let coords: Vec<S> = vec![self.xs0[i], self.xs1[j], self.xs2[k]];
        assert(coords@ =~= seq![
            self.points0()[i as int],
            self.points1()[j as int],
            self.points2()[k as int],
        ]);
        Some((coords, self.cells.time(cell)))
    }
}

} // verus!
