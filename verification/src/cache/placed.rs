//! Where the samples of a sweep stand in a fitted table.

use crate::cache::interp::Metrics4;
use crate::cache::linear_1d::{kept, kept_points, Cache1DLinear};
use crate::cache::linear_2d::Cache2DLinear;
use crate::cache::linear_3d::{flat, flat_unflat, Cache3DLinear};
use crate::cache::order::{stable_order, widened_points};
use crate::cache::scalar::Scalar;
use crate::cache::Cache;
use vstd::prelude::*;

verus! {

/// A kept sample has its place among the kept ones.
proof fn kept_has<T>(samples: Seq<Option<T>>, a: int) -> (k: int)
    requires
        0 <= a < samples.len() <= usize::MAX,
        samples[a] is Some,
    ensures
        0 <= k < kept(samples).len(),
        kept(samples)[k] == a,
    decreases samples.len(),
{
    let front = samples.drop_last();
    if a < front.len() {
        let k = kept_has(front, a);
        assert(kept(samples)[k] == kept(front)[k]);
        k
    } else {
        kept(front).len() as int
    }
}

impl<S: Scalar> Cache1DLinear<S> {
    /// Every kept sample stands in the table at its own point of the axis.
    pub proof fn samples_stand_at_their_points(
        &self,
        axis: Seq<S::Wide>,
        samples: Seq<Option<Metrics4<S>>>,
        a: int,
    ) -> (i: int)
        requires
            self.fits(axis, samples),
            axis.len() == samples.len() <= usize::MAX,
            0 <= a < samples.len(),
            samples[a] is Some,
        ensures
            0 <= i < self.points().len() == self.values().len(),
            self.points()[i] == S::narrowed(axis[a]),
            samples[a] == Some(self.values()[i]),
    {
        let k = kept_has(samples, a);
        let order = stable_order(widened_points(kept_points(axis, samples)));
        kept_is_short(samples);
        assert(order.contains(k as usize));
        order.index_of(k as usize)
    }
}

proof fn kept_is_short<T>(samples: Seq<Option<T>>)
    ensures
        kept(samples).len() <= samples.len(),
    decreases samples.len(),
{
    if samples.len() > 0 {
        kept_is_short(samples.drop_last());
    }
}

impl<S: Scalar> Cache2DLinear<S> {
    /// Every sample of a sweep in row-major order stands in the table at its own points of
    /// the two axes.
    pub proof fn samples_stand_at_their_points(
        &self,
        axis0: Seq<S::Wide>,
        axis1: Seq<S::Wide>,
        samples: Seq<Option<Metrics4<S>>>,
        a: int,
        b: int,
    ) -> (at: (int, int))
        requires
            self.fits(axis0, axis1, samples),
            samples.len() == axis0.len() * axis1.len(),
            samples.len() <= usize::MAX,
            axis0.len() <= usize::MAX,
            axis1.len() <= usize::MAX,
            0 <= a < axis0.len(),
            0 <= b < axis1.len(),
        ensures
            0 <= at.0 < self.points0().len(),
            0 <= at.1 < self.points1().len(),
            self.points0()[at.0] == S::narrowed(axis0[a]),
            self.points1()[at.1] == S::narrowed(axis1[b]),
            self.grid()[at.0 * self.points1().len() + at.1] == samples[a * axis1.len() + b],
    {
        let order0 = stable_order(axis0);
        let order1 = stable_order(axis1);
        assert(order0.contains(a as usize) && order1.contains(b as usize));
        let i = order0.index_of(a as usize);
        let j = order1.index_of(b as usize);
        let rows = axis0.len() as int;
        let columns = axis1.len() as int;
        let k = i * columns + j;
        assert(0 <= k < rows * columns) by (nonlinear_arith)
            requires
                k == i * columns + j,
                0 <= i < rows,
                0 <= j < columns,
        ;
        let from = a * columns + b;
        assert(0 <= from < rows * columns) by (nonlinear_arith)
            requires
                from == a * columns + b,
                0 <= a < rows,
                0 <= b < columns,
        ;
        vstd::arithmetic::div_mod::lemma_fundamental_div_mod_converse(k, columns, i, j);
        (i, j)
    }
}

impl<S: Scalar> Cache3DLinear<S> {
    /// Every sample of a sweep in row-major order stands in the table at its own points of
    /// the three axes.
    pub proof fn samples_stand_at_their_points(
        &self,
        axis0: Seq<S::Wide>,
        axis1: Seq<S::Wide>,
        axis2: Seq<S::Wide>,
        samples: Seq<Option<Metrics4<S>>>,
        a: int,
        b: int,
        c: int,
    ) -> (at: (int, int, int))
        requires
            self.fits(axis0, axis1, axis2, samples),
            samples.len() == axis0.len() * axis1.len() * axis2.len(),
            samples.len() <= usize::MAX,
            axis0.len() <= usize::MAX,
            axis1.len() <= usize::MAX,
            axis2.len() <= usize::MAX,
            0 <= a < axis0.len(),
            0 <= b < axis1.len(),
            0 <= c < axis2.len(),
        ensures
            0 <= at.0 < self.points0().len(),
            0 <= at.1 < self.points1().len(),
            0 <= at.2 < self.points2().len(),
            self.points0()[at.0] == S::narrowed(axis0[a]),
            self.points1()[at.1] == S::narrowed(axis1[b]),
            self.points2()[at.2] == S::narrowed(axis2[c]),
            self.grid()[(at.0 * self.points1().len() + at.1) * self.points2().len() + at.2]
                == samples[(a * axis1.len() + b) * axis2.len() + c],
    {
        let order0 = stable_order(axis0);
        let order1 = stable_order(axis1);
        let order2 = stable_order(axis2);
        assert(order0.contains(a as usize) && order1.contains(b as usize) && order2.contains(
            c as usize,
        ));
        let i = order0.index_of(a as usize);
        let j = order1.index_of(b as usize);
        let k = order2.index_of(c as usize);
        let d0 = axis0.len() as int;
        let d1 = axis1.len() as int;
        let d2 = axis2.len() as int;
        flat_unflat(d0, d1, d2, i, j, k);
        flat_unflat(d0, d1, d2, a, b, c);
        assert(flat(d1, d2, i, j, k) == (i * d1 + j) * d2 + k);
        assert(flat(d1, d2, a, b, c) == (a * d1 + b) * d2 + c);
        (i, j, k)
    }
}

/// A cell of a grid is told by its own two coordinates and its time.
pub proof fn grid_cells_are_told<S: Scalar>(table: Cache2DLinear<S>, i: int, j: int)
    requires
        0 <= i < table.points0().len(),
        0 <= j < table.points1().len(),
        table.grid().len() == table.points0().len() * table.points1().len(),
    ensures
        table.held(i * table.points1().len() + j) matches Some((coords, time)) && coords
            == seq![table.points0()[i], table.points1()[j]] && time == (
        match table.grid()[i * table.points1().len() + j] {
            Some(metrics) => Some(metrics.time_ms),
            None => None,
        }),
{
    let rows = table.points0().len() as int;
    let columns = table.points1().len() as int;
    let at = i * columns + j;
    assert(0 <= at < rows * columns) by (nonlinear_arith)
        requires
            at == i * columns + j,
            0 <= i < rows,
            0 <= j < columns,
    ;
    vstd::arithmetic::div_mod::lemma_fundamental_div_mod_converse(at, columns, i, j);
}

/// A cell of a block is told by its own three coordinates and its time.
pub proof fn block_cells_are_told<S: Scalar>(table: Cache3DLinear<S>, i: int, j: int, k: int)
    requires
        0 <= i < table.points0().len(),
        0 <= j < table.points1().len(),
        0 <= k < table.points2().len(),
        table.grid().len() == table.points0().len() * table.points1().len()
            * table.points2().len(),
    ensures
        table.held(
            (i * table.points1().len() + j) * table.points2().len() + k,
        ) matches Some((coords, time)) && coords == seq![
            table.points0()[i],
            table.points1()[j],
            table.points2()[k],
        ] && time == (match table.grid()[(i * table.points1().len() + j) * table.points2().len()
            + k] {
            Some(metrics) => Some(metrics.time_ms),
            None => None,
        }),
{
    let d0 = table.points0().len() as int;
    let d1 = table.points1().len() as int;
    let d2 = table.points2().len() as int;
    flat_unflat(d0, d1, d2, i, j, k);
    assert(flat(d1, d2, i, j, k) == (i * d1 + j) * d2 + k);
}

} // verus!
