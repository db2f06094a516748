//! Piecewise-linear interpolation over one axis.

use crate::cache::cells::{drop_warnings, drops_name_cells, names_cells, FitWarning};
use crate::cache::interp::{
    all_defined, in_order, locate, located, located_at_point, well_spaced, LeafMetrics, Located,
    Metrics4,
};
use crate::cache::order::{
    all_points_defined, arrange, arranged, is_stable_order, narrowed_order, stable_order,
    widened_points,
};
use crate::cache::peak::PeakRates;
use crate::cache::scalar::{NeutralElements, Scalar, Wide};
use crate::cache::Cache;
use vstd::prelude::*;

verus! {

/// A table over one axis. Its points ascend; dropped samples are not among them.
#[derive(Clone, Debug)]
pub struct Cache1DLinear<S> {
    xs: Vec<S>,
    metrics: Vec<Metrics4<S>>,
}

/// The places of the samples that were kept.
pub open spec fn kept<T>(samples: Seq<Option<T>>) -> Seq<usize>
    decreases samples.len(),
{
    if samples.len() == 0 {
        seq![]
    } else if samples.last() is Some {
        kept(samples.drop_last()).push((samples.len() - 1) as usize)
    } else {
        kept(samples.drop_last())
    }
}

/// The kept points of an axis, narrowed, in the order of the sweep.
pub open spec fn kept_points<S: Scalar>(
    axis: Seq<S::Wide>,
    samples: Seq<Option<Metrics4<S>>>,
) -> Seq<S> {
    Seq::new(kept(samples).len(), |k: int| S::narrowed(axis[kept(samples)[k] as int]))
}

/// The kept samples, in the order of the sweep.
pub open spec fn kept_metrics<S>(samples: Seq<Option<Metrics4<S>>>) -> Seq<Metrics4<S>> {
    Seq::new(kept(samples).len(), |k: int| samples[kept(samples)[k] as int]->0)
}

/// A warning for every point whose time falls short of the point before it.
pub open spec fn break_warnings<S: Scalar>(metrics: Seq<Metrics4<S>>, count: int) -> Seq<FitWarning>
    decreases count,
{
    if count <= 1 {
        seq![]
    } else {
        let earlier = break_warnings(metrics, count - 1);
        if metrics[count - 1].drops_from(metrics[count - 2]) {
            earlier.push(
                FitWarning::Break {
                    axis: 0,
                    before: (count - 2) as usize,
                    after: (count - 1) as usize,
                },
            )
        } else {
            earlier
        }
    }
}

/// The warnings of drops in time name neighbouring points.
proof fn breaks_name_points<S: Scalar>(metrics: Seq<Metrics4<S>>, count: int)
    requires
        count <= metrics.len() <= usize::MAX,
    ensures
        forall|k: int|
            0 <= k < break_warnings(metrics, count).len() ==> {
                &&& #[trigger] break_warnings(metrics, count)[k] matches FitWarning::Break {
                    axis,
                    before,
                    after,
                }
                &&& axis == 0
                &&& after == before + 1
                &&& after < count
                &&& metrics[after as int].drops_from(metrics[before as int])
            },
    decreases count,
{
    if count > 1 {
        breaks_name_points(metrics, count - 1);
        let earlier = break_warnings(metrics, count - 1);
        let all = break_warnings(metrics, count);
        assert forall|k: int| 0 <= k < all.len() implies {
            &&& #[trigger] all[k] matches FitWarning::Break { axis, before, after }
            &&& axis == 0
            &&& after == before + 1
            &&& after < count
            &&& metrics[after as int].drops_from(metrics[before as int])
        } by {
            if k < earlier.len() {
                assert(all[k] == earlier[k]);
            }
        }
    }
}

/// The warnings of dropped samples are of that kind.
proof fn drops_are_dropped<T>(samples: Seq<Option<T>>, k: int)
    requires
        0 <= k < drop_warnings(samples).len(),
    ensures
        drop_warnings(samples)[k] is Dropped,
    decreases samples.len(),
{
    if samples.len() > 0 && k < drop_warnings(samples.drop_last()).len() {
        drops_are_dropped(samples.drop_last(), k);
    }
}

/// The value of a table at `x`, extending its end segments, and whether `x` lies off
/// its axis.
pub open spec fn line_reading<S: Scalar>(xs: Seq<S>, metrics: Seq<Metrics4<S>>, x: S) -> (
    Metrics4<S>,
    bool,
) {
    let at = located(xs, x);
    (metrics[at.low as int].blended(metrics[at.high as int], at.t), at.outside)
}

impl<S: Scalar> Cache1DLinear<S> {
    pub closed spec fn points(&self) -> Seq<S> {
        self.xs@
    }

    pub closed spec fn values(&self) -> Seq<Metrics4<S>> {
        self.metrics@
    }

    /// Whether the table holds these samples: the kept points, narrowed, in ascending
    /// order, each with its own sample.
    pub open spec fn fits(&self, axis: Seq<S::Wide>, samples: Seq<Option<Metrics4<S>>>) -> bool {
        let points = kept_points(axis, samples);
        let order = stable_order(widened_points(points));
        &&& is_stable_order(widened_points(points), order)
        &&& self.points() == arranged(points, order)
        &&& self.values() == arranged(kept_metrics(samples), order)
    }

    /// The warnings of fitting the table: dropped samples by their place in the sweep,
    /// then drops in time by their place in the table.
    pub open spec fn fit_warnings(&self, samples: Seq<Option<Metrics4<S>>>) -> Seq<FitWarning> {
        drop_warnings(samples) + break_warnings(self.values(), self.values().len() as int)
    }

    /// Fit a table to the samples of a sweep; a missing sample is dropped.
    pub fn from_samples(axis: &Vec<S::Wide>, samples: &Vec<Option<Metrics4<S>>>) -> (r: (
        Self,
        Vec<FitWarning>,
    ))
        requires
            axis@.len() == samples@.len(),
            all_points_defined(axis@),
        ensures
            r.0.wf(),
            r.0.fits(axis@, samples@),
            r.1@ == r.0.fit_warnings(samples@),
    {
        let mut points: Vec<S> = Vec::new();
        let mut rows: Vec<Metrics4<S>> = Vec::new();
        let mut warnings: Vec<FitWarning> = Vec::new();
        let mut i: usize = 0;
        assert(samples@.take(0) =~= Seq::<Option<Metrics4<S>>>::empty());
        assert(warnings@ =~= seq![]);
        while i < axis.len()
            invariant
                i <= axis@.len(),
                axis@.len() == samples@.len(),
                all_points_defined(axis@),
                all_defined(points@),
                ({
                    let now = samples@.take(i as int);
                    &&& points@ =~= kept_points(axis@, now)
                    &&& rows@ =~= kept_metrics(now)
                    &&& warnings@ =~= drop_warnings(now)
                    &&& forall|k: int| 0 <= k < kept(now).len() ==> #[trigger] kept(now)[k] < i
                }),
            decreases axis@.len() - i,
        {
            proof {
                let now = samples@.take(i as int);
                let next = samples@.take(i + 1);
                assert(next.drop_last() =~= now);
                assert(next.last() == samples@[i as int]);
                assert forall|k: int| 0 <= k < kept(now).len() implies #[trigger] now[kept(now)[k] as int]
                    == next[kept(now)[k] as int] by {
                    assert(kept(now)[k] < i);
                }
            }
            match &samples[i] {
                Some(sample) => {
                    assert(!axis@[i as int].undefined());
                    points.push(S::narrow(axis[i]));
                    rows.push(*sample);
                },
                None => {
                    warnings.push(FitWarning::Dropped { cell: i });
                },
            }
            i += 1;
        }
        assert(samples@.take(i as int) =~= samples@);
        let order: Vec<usize> = narrowed_order(&points);
        let xs: Vec<S> = arrange(&points, &order);
        let metrics: Vec<Metrics4<S>> = arrange(&rows, &order);
        let ghost drops = warnings@;
        let mut k: usize = 1;
        assert(warnings@ =~= drops + break_warnings(metrics@, 1));
        while k < metrics.len()
            invariant
                1 <= k,
                k <= metrics@.len() || k == 1,
                warnings@ == drops + break_warnings(metrics@, k as int),
            decreases metrics@.len() - k,
        {
            if metrics[k].has_dropped(&metrics[k - 1]) {
                warnings.push(FitWarning::Break { axis: 0, before: k - 1, after: k });
            }
            k += 1;
            assert(warnings@ =~= drops + break_warnings(metrics@, k as int));
        }
        assert(break_warnings(metrics@, k as int) =~= break_warnings(
            metrics@,
            metrics@.len() as int,
        ));
        (Cache1DLinear { xs, metrics }, warnings)
    }

    /// Every point of a table has its sample.
    pub proof fn points_have_values(&self)
        requires
            self.wf(),
        ensures
            self.points().len() == self.values().len(),
    {
    }

    /// Every warning of a fitted table names a sample that was dropped, or two
    /// neighbouring points of the table of which the later takes less time.
    pub proof fn warnings_name_points(&self, samples: Seq<Option<Metrics4<S>>>)
        requires
            samples.len() <= usize::MAX,
        ensures
            forall|k: int|
                0 <= k < self.fit_warnings(samples).len() ==> match #[trigger] self.fit_warnings(
                    samples,
                )[k] {
                    FitWarning::Dropped { cell } => cell < samples.len() && samples[cell as int]
                        is None,
                    FitWarning::Break { axis, before, after } => {
                        &&& axis == 0
                        &&& after == before + 1
                        &&& after < self.values().len()
                        &&& self.values()[after as int].drops_from(self.values()[before as int])
                    },
                },
    {
        let drops = drop_warnings(samples);
        let count = self.values().len() as int;
        let breaks = break_warnings(self.values(), count);
        assert(self.metrics.len() == self.values().len());
        drops_name_cells(samples);
        breaks_name_points(self.values(), count);
        assert forall|k: int| 0 <= k < (drops + breaks).len() implies match #[trigger] (drops
            + breaks)[k] {
            FitWarning::Dropped { cell } => cell < samples.len() && samples[cell as int] is None,
            FitWarning::Break { axis, before, after } => {
                &&& axis == 0
                &&& after == before + 1
                &&& after < self.values().len()
                &&& self.values()[after as int].drops_from(self.values()[before as int])
            },
        } by {
            if k < drops.len() {
                assert((drops + breaks)[k] == drops[k]);
                drops_are_dropped(samples, k);
                assert(names_cells(drops[k], samples));
            } else {
                assert((drops + breaks)[k] == breaks[k - drops.len()]);
            }
        }
    }

    /// A table gives back each of its samples at its own point, as one that is on the
    /// axis. The last of several points ends a segment and is reached by adding up, so it
    /// is left out.
    pub proof fn reproduces_samples(&self, i: int)
        where S: NeutralElements
        requires
            self.wf(),
            0 <= i < self.points().len(),
            i + 1 < self.points().len() || self.points().len() == 1,
            well_spaced(self.points()),
        ensures
            self.reading(seq![self.points()[i]]) == Some((self.values()[i], false)),
    {
        let xs = self.points();
        let x = xs[i];
        assert(self.xs.len() == xs.len());
        located_at_point(xs, i);
        let at = located(xs, x);
        let low = self.values()[at.low as int];
        let high = self.values()[at.high as int];
        S::neutral(high.time_ms.difference(low.time_ms));
        S::neutral(high.flops.difference(low.flops));
        S::neutral(high.bytes.difference(low.bytes));
        S::neutral(high.energy_j.difference(low.energy_j));
        S::neutral(low.time_ms);
        S::neutral(low.flops);
        S::neutral(low.bytes);
        S::neutral(low.energy_j);
    }
}

impl<S: Scalar> Cache<S> for Cache1DLinear<S> {
    closed spec fn wf(&self) -> bool {
        &&& self.xs@.len() == self.metrics@.len()
        &&& all_defined(self.xs@)
        &&& in_order(self.xs@)
    }

    open spec fn arity(&self) -> nat {
        1
    }

    open spec fn reading(&self, sweep: Seq<S>) -> Option<(Metrics4<S>, bool)> {
        if self.points().len() == 0 || sweep[0].undefined() {
            None
        } else {
            Some(line_reading(self.points(), self.values(), sweep[0]))
        }
    }

    open spec fn best_rates(&self) -> PeakRates<S::Wide> {
        PeakRates::none()
    }

    open spec fn held(&self, cell: int) -> Option<(Seq<S>, Option<S>)> {
        if 0 <= cell < self.points().len() {
            Some((seq![self.points()[cell]], Some(self.values()[cell].time_ms)))
        } else {
            None
        }
    }

    fn eval(&self, sweep: &Vec<S>) -> (r: LeafMetrics<S>) {
        let x: S = sweep[0];
        if self.xs.len() == 0 || x.is_nan() {
            return LeafMetrics::miss();
        }
        let at: Located<S> = locate(&self.xs, x);
        let m: Metrics4<S> = self.metrics[at.low].lerp(self.metrics[at.high], at.t);
        LeafMetrics::value(m, at.outside)
    }

    fn peak_rates(&self) -> (r: PeakRates<S::Wide>) {
        PeakRates::zero()
    }

    fn cell(&self, cell: usize) -> (r: Option<(Vec<S>, Option<S>)>) {
        if cell >= self.xs.len() {
            return None;
        }
        let coords: Vec<S> = vec![self.xs[cell]];
        assert(coords@ =~= seq![self.points()[cell as int]]);
        Some((coords, Some(self.metrics[cell].time_ms)))
    }
}

} // verus!
