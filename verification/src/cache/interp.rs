//! What the tables share: samples of four metrics, coverage flags, and the search for
//! the segment of an axis that a coordinate falls into.

use crate::cache::scalar::{
    at_least_zero, floored, ranks_at_most, ranks_below, NeutralElements, Scalar,
};
use vstd::prelude::*;

verus! {

/// The metrics of one profiled point.
#[derive(Clone, Copy, Debug)]
pub struct Metrics4<S> {
    pub time_ms: S,
    pub flops: S,
    pub bytes: S,
    pub energy_j: S,
}

/// `a + (b - a) * t`.
pub open spec fn between<S: Scalar>(a: S, b: S, t: S) -> S {
    a.sum(b.difference(a).product(t))
}

/// `a + b * weight`.
pub open spec fn raised<S: Scalar>(a: S, b: S, weight: S) -> S {
    a.sum(b.product(weight))
}

impl<S: Scalar> Metrics4<S> {
    pub open spec fn nothing() -> Self {
        Metrics4 {
            time_ms: S::zero_value(),
            flops: S::zero_value(),
            bytes: S::zero_value(),
            energy_j: S::zero_value(),
        }
    }

    pub fn zero() -> (r: Self)
        ensures
            r == Self::nothing(),
    {
        Metrics4 { time_ms: S::zero(), flops: S::zero(), bytes: S::zero(), energy_j: S::zero() }
    }

    pub open spec fn blended(self, other: Self, t: S) -> Self {
        Metrics4 {
            time_ms: between(self.time_ms, other.time_ms, t),
            flops: between(self.flops, other.flops, t),
            bytes: between(self.bytes, other.bytes, t),
            energy_j: between(self.energy_j, other.energy_j, t),
        }
    }

    /// Every metric a fraction `t` of the way to `other`; outside zero to one this
    /// extrapolates.
    pub fn lerp(self, other: Self, t: S) -> (r: Self)
        ensures
            r == self.blended(other, t),
    {
        Metrics4 {
            time_ms: self.time_ms.plus(other.time_ms.minus(self.time_ms).times(t)),
            flops: self.flops.plus(other.flops.minus(self.flops).times(t)),
            bytes: self.bytes.plus(other.bytes.minus(self.bytes).times(t)),
            energy_j: self.energy_j.plus(other.energy_j.minus(self.energy_j).times(t)),
        }
    }

    pub open spec fn with_added(self, other: Self, weight: S) -> Self {
        Metrics4 {
            time_ms: raised(self.time_ms, other.time_ms, weight),
            flops: raised(self.flops, other.flops, weight),
            bytes: raised(self.bytes, other.bytes, weight),
            energy_j: raised(self.energy_j, other.energy_j, weight),
        }
    }

    /// Add `other` times `weight` to every metric.
    pub fn add_scaled(&mut self, other: Self, weight: S)
        ensures
            *final(self) == old(self).with_added(other, weight),
    {
        *self = Metrics4 {
            time_ms: self.time_ms.plus(other.time_ms.times(weight)),
            flops: self.flops.plus(other.flops.times(weight)),
            bytes: self.bytes.plus(other.bytes.times(weight)),
            energy_j: self.energy_j.plus(other.energy_j.times(weight)),
        };
    }

    pub open spec fn scaled(self, factor: S) -> Self {
        Metrics4 {
            time_ms: self.time_ms.product(factor),
            flops: self.flops.product(factor),
            bytes: self.bytes.product(factor),
            energy_j: self.energy_j.product(factor),
        }
    }

    /// Multiply every metric.
    pub fn scale(&mut self, factor: S)
        ensures
            *final(self) == old(self).scaled(factor),
    {
        *self = Metrics4 {
            time_ms: self.time_ms.times(factor),
            flops: self.flops.times(factor),
            bytes: self.bytes.times(factor),
            energy_j: self.energy_j.times(factor),
        };
    }

    pub open spec fn without_negatives(self) -> Self {
        Metrics4 {
            time_ms: floored(self.time_ms),
            flops: floored(self.flops),
            bytes: floored(self.bytes),
            energy_j: floored(self.energy_j),
        }
    }

    /// Every metric, or zero where it is negative.
    pub fn clamped(self) -> (r: Self)
        ensures
            r == self.without_negatives(),
    {
        Metrics4 {
            time_ms: at_least_zero(self.time_ms),
            flops: at_least_zero(self.flops),
            bytes: at_least_zero(self.bytes),
            energy_j: at_least_zero(self.energy_j),
        }
    }

    /// Whether the time falls short of an earlier point's by more than the tolerance.
    pub open spec fn drops_from(self, before: Self) -> bool {
        ranks_below(
            self.time_ms,
            before.time_ms.product(S::one_value().difference(S::tolerance_value())),
        )
    }

    /// Whether the time falls short of an earlier point's by more than the tolerance.
    pub fn has_dropped(&self, before: &Self) -> (r: bool)
        ensures
            r == self.drops_from(*before),
    {
        self.time_ms.below(before.time_ms.times(S::one().minus(S::tolerance())))
    }
}

/// What a looked-up value rests on, one bit per concern.
#[derive(Clone, Copy, Debug, PartialEq, Eq, Hash, Structural)]
pub struct CoverageFlags {
    bits: u8,
}

impl CoverageFlags {
    /// The bits of the flags.
    pub closed spec fn raw(self) -> u8 {
        self.bits
    }

    /// No concern.
    pub closed spec fn clear() -> Self {
        CoverageFlags { bits: 0 }
    }

    /// No concern.
    pub fn empty() -> (r: Self)
        ensures
            r.raw() == 0,
            r == Self::clear(),
    {
        CoverageFlags { bits: 0 }
    }

    /// The query lay off the grid, or leaned on a dropped sample.
    pub fn extrapolated() -> (r: Self)
        ensures
            r.raw() == 1,
    {
        CoverageFlags { bits: 1 }
    }

    /// The value was profiled on demand.
    pub fn jit() -> (r: Self)
        ensures
            r.raw() == 2,
    {
        CoverageFlags { bits: 2 }
    }

    /// There was nothing to look up.
    pub fn no_coverage() -> (r: Self)
        ensures
            r.raw() == 4,
    {
        CoverageFlags { bits: 4 }
    }

    pub fn is_empty(self) -> (r: bool)
        ensures
            r == (self.raw() == 0),
    {
        self.bits == 0
    }

    /// Whether every concern of `other` is among these.
    pub open spec fn includes(self, other: Self) -> bool {
        self.raw() & other.raw() == other.raw()
    }

    /// Whether every concern of `other` is among these.
    pub fn contains(self, other: Self) -> (r: bool)
        ensures
            r == self.includes(other),
    {
        self.bits & other.bits == other.bits
    }

    /// The bits, one column of a log.
    pub fn bits(self) -> (r: u8)
        ensures
            r == self.raw(),
    {
        self.bits
    }

    /// The concerns of both.
    pub closed spec fn union(self, other: Self) -> Self {
        CoverageFlags { bits: self.bits | other.bits }
    }

    /// The concerns of both.
    pub fn with(self, other: Self) -> (r: Self)
        ensures
            r == self.union(other),
            r.raw() == self.raw() | other.raw(),
    {
        CoverageFlags { bits: self.bits | other.bits }
    }

    /// Flags with the same bits are the same flags.
    pub proof fn raw_determines(a: Self, b: Self)
        requires
            a.raw() == b.raw(),
        ensures
            a == b,
    {
    }

    /// What is among the concerns of a part is among those of the whole.
    pub proof fn inclusion_carries(whole: Self, part: Self, flags: Self)
        requires
            whole.includes(part),
            part.includes(flags),
        ensures
            whole.includes(flags),
    {
        let w = whole.bits;
        let p = part.bits;
        let f = flags.bits;
        assert(w & p == p && p & f == f ==> w & f == f) by (bit_vector);
    }

    pub proof fn clear_is_neutral(a: Self)
        ensures
            Self::clear().raw() == 0,
            Self::clear().union(a) == a,
            a.includes(Self::clear()),
    {
        let x = a.bits;
        assert(0u8 | x == x && x & 0u8 == 0u8) by (bit_vector);
    }

    /// A union has the concerns of both sides and no others; the order and grouping of
    /// unions do not matter.
    pub proof fn union_laws(a: Self, b: Self, c: Self)
        ensures
            a.union(b).raw() == a.raw() | b.raw(),
            a.union(b).includes(a),
            a.union(b).includes(b),
            a.union(b).includes(c) && a.raw() == 0 ==> b.includes(c),
            a.union(a) == a,
            a.union(b) == b.union(a),
            a.union(b.union(c)) == a.union(b).union(c),
    {
        let x = a.bits;
        let y = b.bits;
        let z = c.bits;
        assert((x | y) & x == x && (x | y) & y == y) by (bit_vector);
        assert(x | x == x && x | y == y | x && x | (y | z) == (x | y) | z) by (bit_vector);
        assert(0u8 | y == y) by (bit_vector);
    }
}

/// Extrapolated if the query was off the grid.
pub open spec fn coverage_bits(outside: bool) -> u8 {
    if outside {
        1
    } else {
        0
    }
}

/// One looked-up cost: its metrics, what they rest on, and which candidate backend it
/// was taken from.
#[derive(Clone, Copy, Debug)]
pub struct LeafMetrics<S> {
    pub m: Metrics4<S>,
    pub coverage: CoverageFlags,
    pub backend_index: u8,
}

/// The backend index of a cost that was not taken from one backend.
pub const NO_BACKEND: u8 = 255;

impl<S: Scalar> LeafMetrics<S> {
    /// The sum of no costs.
    pub open spec fn nothing() -> Self {
        LeafMetrics {
            m: Metrics4::nothing(),
            coverage: CoverageFlags::clear(),
            backend_index: NO_BACKEND,
        }
    }

    /// The sum of no costs.
    pub fn zero() -> (r: Self)
        ensures
            r == Self::nothing(),
    {
        LeafMetrics { m: Metrics4::zero(), coverage: CoverageFlags::empty(), backend_index: NO_BACKEND }
    }

    /// Whether this is the placeholder of a lookup that found nothing.
    pub open spec fn is_miss(self) -> bool {
        self.m == Metrics4::<S>::nothing() && self.coverage.raw() == 4 && self.backend_index
            == NO_BACKEND
    }

    /// The placeholder of a lookup that found nothing: flagged, so that its zero time
    /// does not pass for a measurement.
    pub fn miss() -> (r: Self)
        ensures
            r.is_miss(),
    {
        LeafMetrics {
            m: Metrics4::zero(),
            coverage: CoverageFlags::no_coverage(),
            backend_index: NO_BACKEND,
        }
    }

    /// Whether this is the result of a lookup: metrics that are not negative, flagged
    /// if the query was off the grid.
    pub open spec fn is_value(self, m: Metrics4<S>, outside: bool) -> bool {
        self.m == m.without_negatives() && self.coverage.raw() == coverage_bits(outside)
            && self.backend_index == NO_BACKEND
    }

    /// The result of a lookup.
    pub fn value(m: Metrics4<S>, outside: bool) -> (r: Self)
        ensures
            r.is_value(m, outside),
    {
        LeafMetrics {
            m: m.clamped(),
            coverage: if outside {
                CoverageFlags::extrapolated()
            } else {
                CoverageFlags::empty()
            },
            backend_index: NO_BACKEND,
        }
    }

    /// Serial composition: the metrics add, the concerns join, and the backend stays.
    pub open spec fn joined(self, other: Self) -> Self {
        LeafMetrics {
            m: self.m.with_added(other.m, S::one_value()),
            coverage: self.coverage.union(other.coverage),
            backend_index: self.backend_index,
        }
    }

    /// Add another cost; a sum is no backend's choice, so it adopts none.
    pub fn add(&mut self, other: Self)
        ensures
            *final(self) == old(self).joined(other),
    {
        let mut m = self.m;
        m.add_scaled(other.m, S::one());
        *self = LeafMetrics {
            m,
            coverage: self.coverage.with(other.coverage),
            backend_index: self.backend_index,
        };
    }

    /// Add the cost of one more request to a leaf; the leaf keeps the first backend
    /// that a request was run on.
    pub fn add_fanin(&mut self, other: Self)
        ensures
            final(self).m == old(self).joined(other).m,
            final(self).coverage == old(self).joined(other).coverage,
            final(self).backend_index == (if old(self).backend_index == NO_BACKEND {
                other.backend_index
            } else {
                old(self).backend_index
            }),
    {
        self.add(other);
        if self.backend_index == NO_BACKEND {
            self.backend_index = other.backend_index;
        }
    }

    /// A cost repeated: the metrics multiply, all else stays.
    pub open spec fn repeated(self, factor: S) -> Self {
        LeafMetrics {
            m: self.m.scaled(factor),
            coverage: self.coverage,
            backend_index: self.backend_index,
        }
    }

    /// Repeat a cost: the metrics multiply, all else stays.
    pub fn scale(&mut self, factor: S)
        ensures
            *final(self) == old(self).repeated(factor),
    {
        let mut m = self.m;
        m.scale(factor);
        self.m = m;
    }
}

/// No coordinate is undefined.
pub open spec fn all_defined<S: Scalar>(xs: Seq<S>) -> bool {
    forall|i: int| 0 <= i < xs.len() ==> !(#[trigger] xs[i]).undefined()
}

/// The coordinates never descend.
pub open spec fn in_order<S: Scalar>(xs: Seq<S>) -> bool {
    forall|i: int, j: int| 0 <= i <= j < xs.len() ==> xs[i].rank() <= xs[j].rank()
}

/// The number of coordinates at or before `x`.
pub open spec fn up_to<S: Scalar>(xs: Seq<S>, x: S) -> nat
    decreases xs.len(),
{
    if xs.len() == 0 {
        0
    } else if ranks_at_most(xs.last(), x) {
        xs.len()
    } else {
        up_to(xs.drop_last(), x)
    }
}

/// The first point of the segment that `x` is looked up in: the last point at or
/// before it, kept within the axis so that a query off the grid extends the segment
/// at its end.
pub open spec fn segment_start<S: Scalar>(xs: Seq<S>, x: S) -> int {
    let n = xs.len();
    let before = up_to(xs, x) as int;
    if n == 1 || before == 0 {
        0
    } else if before == n {
        n - 2
    } else {
        before - 1
    }
}

/// The last point of that segment.
pub open spec fn segment_end<S: Scalar>(xs: Seq<S>, x: S) -> int {
    if xs.len() == 1 {
        0
    } else {
        segment_start(xs, x) + 1
    }
}

/// How far along its segment `x` lies; below zero or above one off the grid.
pub open spec fn segment_fraction<S: Scalar>(xs: Seq<S>, x: S) -> S {
    let low = xs[segment_start(xs, x)];
    let width = xs[segment_end(xs, x)].difference(low);
    if xs.len() == 1 || width.tiny() {
        S::zero_value()
    } else {
        x.difference(low).quotient(width)
    }
}

/// Whether `x` lies off the axis.
pub open spec fn off_axis<S: Scalar>(xs: Seq<S>, x: S) -> bool {
    if xs.len() == 1 {
        x.difference(xs[0]).notable()
    } else {
        ranks_below(x, xs[0]) || ranks_below(xs.last(), x)
    }
}

/// Where a coordinate falls on an axis.
#[derive(Clone, Copy, Debug)]
pub struct Located<S> {
    pub low: usize,
    pub high: usize,
    pub t: S,
    pub outside: bool,
}

/// Where `x` falls on the axis.
pub open spec fn located<S: Scalar>(xs: Seq<S>, x: S) -> Located<S> {
    Located {
        low: segment_start(xs, x) as usize,
        high: segment_end(xs, x) as usize,
        t: segment_fraction(xs, x),
        outside: off_axis(xs, x),
    }
}

/// On an axis in order, the points at or before `x` are the first ones.
pub proof fn up_to_is<S: Scalar>(xs: Seq<S>, x: S, n: nat)
    requires
        n <= xs.len(),
        all_defined(xs),
        in_order(xs),
        n > 0 ==> ranks_at_most(xs[n - 1], x),
        n < xs.len() ==> !ranks_at_most(xs[n as int], x),
    ensures
        up_to(xs, x) == n,
    decreases xs.len(),
{
    if xs.len() > 0 && n < xs.len() {
        let front = xs.drop_last();
        assert(!ranks_at_most(xs.last(), x));
        assert(all_defined(front)) by {
            assert forall|i: int| 0 <= i < front.len() implies !(#[trigger] front[i]).undefined() by {
                assert(front[i] == xs[i]);
            }
        }
        assert(in_order(front));
        up_to_is(front, x, n);
    }
}

/// The points of an axis are told apart, and lie far enough from each other to divide
/// by their distance.
pub open spec fn well_spaced<S: Scalar>(xs: Seq<S>) -> bool {
    forall|i: int, j: int|
        0 <= i < j < xs.len() ==> (#[trigger] xs[i]).rank() < (#[trigger] xs[j]).rank()
            && !xs[j].difference(xs[i]).tiny()
}

/// A point of an axis is located at itself: at the start of a segment with fraction
/// zero, or at the end of the last one with fraction one.
pub proof fn located_at_point<S: NeutralElements>(xs: Seq<S>, i: int)
    requires
        xs.len() <= usize::MAX,
        all_defined(xs),
        in_order(xs),
        well_spaced(xs),
        0 <= i < xs.len(),
    ensures
        ({
            let at = located(xs, xs[i]);
            &&& at.low == i && at.t == S::zero_value() || at.high == i && at.t == S::one_value()
            &&& i + 1 < xs.len() || xs.len() == 1 ==> at.low == i && at.t == S::zero_value()
            &&& at.low < xs.len() && at.high < xs.len()
            &&& !at.outside
        }),
{
    let x = xs[i];
    S::no_distance(x, x);
    S::complements();
    if xs.len() > 1 {
        assert(!x.undefined());
        if i + 1 < xs.len() {
            assert(xs[i].rank() < xs[i + 1].rank());
            assert(!ranks_at_most(xs[i + 1], x));
        }
        up_to_is(xs, x, (i + 1) as nat);
        let low = segment_start(xs, x);
        let width = xs[low + 1].difference(xs[low]);
        assert(!width.tiny()) by {
            assert(xs[low].rank() < xs[low + 1].rank());
        }
        S::no_distance(x, width);
        S::whole_distance(width);
        assert(xs[0].rank() <= x.rank() <= xs.last().rank());
    }
}

/// The segment of an ascending axis that `x` is looked up in, by bisection.
pub fn locate<S: Scalar>(xs: &Vec<S>, x: S) -> (r: Located<S>)
    requires
        xs@.len() > 0,
        all_defined(xs@),
        in_order(xs@),
        !x.undefined(),
    ensures
        r == located(xs@, x),
        r.low == segment_start(xs@, x),
        r.high == segment_end(xs@, x),
        r.low < xs@.len(),
        r.high < xs@.len(),
{
    let n: usize = xs.len();
    if n == 1 {
        return Located { low: 0, high: 0, t: S::zero(), outside: x.minus(xs[0]).is_notable() };
    }
    let last: usize = n - 1;
    let mut lo: usize = 0;
    let mut size: usize = n;
    while size > 1
        invariant
            n == xs@.len(),
            1 <= size,
            lo + size <= n,
            all_defined(xs@),
            in_order(xs@),
            !x.undefined(),
            lo > 0 ==> ranks_at_most(xs@[lo as int], x),
            lo + size < n ==> !ranks_at_most(xs@[lo + size], x),
        decreases size,
    {
        let half: usize = size / 2;
        let mid: usize = lo + half;
        if xs[mid].at_most(x) {
            lo = mid;
            size = size - half;
        } else {
            proof {
                assert forall|k: int| mid <= k < n implies !ranks_at_most(#[trigger] xs@[k], x) by {
                    assert(xs@[mid as int].rank() <= xs@[k].rank());
                }
            }
            size = size - half;
        }
    }
    proof {
        if ranks_at_most(xs@[lo as int], x) {
            up_to_is(xs@, x, (lo + 1) as nat);
        } else {
            up_to_is(xs@, x, 0);
        }
    }
    let low: usize = if lo < last {
        lo
    } else {
        last - 1
    };
    let high: usize = low + 1;
    let width: S = xs[high].minus(xs[low]);
    let t: S = if width.is_tiny() {
        S::zero()
    } else {
        x.minus(xs[low]).over(width)
    };
    let outside: bool = x.below(xs[0]) || xs[last].below(x);
    Located { low, high, t, outside }
}

} // verus!
