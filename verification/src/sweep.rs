//! Profiling sweeps: axes of sample points, their row-major product, and the
//! coordinates that a query projects to.

use vstd::prelude::*;

verus! {

/// `2^exponent`.
pub open spec fn two_to(exponent: nat) -> nat
    decreases exponent,
{
    if exponent == 0 {
        1
    } else {
        2 * two_to((exponent - 1) as nat)
    }
}

/// The powers of two `2^low, ..., 2^high`.
pub open spec fn pow2_points(low: nat, high: nat) -> Seq<u32> {
    Seq::new((high - low + 1) as nat, |i: int| two_to((low + i) as nat) as u32)
}

/// The points `start, start + step, ...` up to and including `end`.
pub open spec fn arithmetic_points(start: nat, end: nat, step: nat) -> Seq<u32> {
    Seq::new(((end - start) / (step as int) + 1) as nat, |i: int| (start + i * step) as u32)
}

/// Each point is greater than the one before.
pub open spec fn strictly_ascending(points: Seq<u32>) -> bool {
    forall|i: int, j: int| 0 <= i < j < points.len() ==> points[i] < points[j]
}

/// `points` with every later occurrence of a value dropped.
pub open spec fn without_repeats(points: Seq<u32>) -> Seq<u32>
    decreases points.len(),
{
    if points.len() == 0 {
        seq![]
    } else {
        let head = without_repeats(points.drop_last());
        if points.drop_last().contains(points.last()) {
            head
        } else {
            head.push(points.last())
        }
    }
}

/// A continued axis holds the points of both, and no others.
pub proof fn chained_holds(base: Seq<u32>, more: Seq<u32>, point: u32)
    ensures
        chained(base, more).contains(point) <==> base.contains(point) || more.contains(point),
{
    let all = base + more;
    without_repeats_values(all);
    if base.contains(point) {
        let i = choose|i: int| 0 <= i < base.len() && base[i] == point;
        assert(all[i] == point);
    }
    if more.contains(point) {
        let i = choose|i: int| 0 <= i < more.len() && more[i] == point;
        assert(all[base.len() + i] == point);
    }
    if all.contains(point) {
        let k = choose|k: int| 0 <= k < all.len() && all[k] == point;
        if k < base.len() {
            assert(base[k] == point);
        } else {
            assert(more[k - base.len()] == point);
        }
    }
}

/// One axis continued by the points of another that it does not hold yet.
pub open spec fn chained(base: Seq<u32>, more: Seq<u32>) -> Seq<u32> {
    without_repeats(base + more)
}

/// The points of `points` that are at most `limit`, in order.
pub open spec fn at_most(points: Seq<u32>, limit: int) -> Seq<u32>
    decreases points.len(),
{
    if points.len() == 0 {
        seq![]
    } else {
        let head = at_most(points.drop_last(), limit);
        if points.last() <= limit {
            head.push(points.last())
        } else {
            head
        }
    }
}

/// The points that are kept are those of the list that the limit lets through.
pub proof fn at_most_keeps(points: Seq<u32>, limit: int, point: u32)
    ensures
        at_most(points, limit).contains(point) <==> points.contains(point) && point <= limit,
    decreases points.len(),
{
    if points.len() > 0 {
        let front = points.drop_last();
        let head = at_most(front, limit);
        at_most_keeps(front, limit, point);
        assert(points =~= front.push(points.last()));
        vstd::seq_lib::lemma_seq_contains_after_push(front, points.last(), point);
        vstd::seq_lib::lemma_seq_contains_after_push(head, points.last(), point);
    }
}

/// A limit that lets every point through keeps the list as it is.
pub proof fn at_most_of_all(points: Seq<u32>, limit: int)
    requires
        forall|i: int| 0 <= i < points.len() ==> #[trigger] points[i] <= limit,
    ensures
        at_most(points, limit) == points,
    decreases points.len(),
{
    if points.len() > 0 {
        let front = points.drop_last();
        assert forall|i: int| 0 <= i < front.len() implies #[trigger] front[i] <= limit by {
            assert(points[i] <= limit);
        }
        at_most_of_all(front, limit);
        assert(points[points.len() - 1] <= limit);
        assert(points =~= front.push(points.last()));
    }
}

/// The powers of two run from the lowest exponent to the highest.
pub proof fn pow2_points_ends(low: nat, high: nat)
    requires
        low <= high < 32,
    ensures
        pow2_points(low, high).len() > 0,
        pow2_points(low, high)[0] == two_to(low),
        pow2_points(low, high).last() == two_to(high),
{
    two_to_monotonic(low, high);
    two_to_monotonic(high, 31);
    two_to_32();
}

/// The powers of two ascend, each twice the one before.
pub proof fn pow2_points_double(low: nat, high: nat, i: int)
    requires
        low <= high < 32,
        0 <= i,
        i + 1 < pow2_points(low, high).len(),
    ensures
        pow2_points(low, high)[i] > 0,
        pow2_points(low, high)[i + 1] == 2 * pow2_points(low, high)[i],
{
    two_to_monotonic((low + i + 1) as nat, 31);
    two_to_monotonic(0, (low + i) as nat);
    two_to_32();
}

/// Two strictly ascending sequences with the same values are the same sequence.
pub proof fn ascending_values_determine(a: Seq<u32>, b: Seq<u32>)
    requires
        strictly_ascending(a),
        strictly_ascending(b),
        forall|x: u32| a.contains(x) <==> b.contains(x),
    ensures
        a == b,
    decreases a.len(),
{
    if a.len() == 0 {
        if b.len() > 0 {
            assert(b.contains(b[0]));
            assert(a.contains(b[0]));
        }
        assert(a =~= b);
    } else {
        assert(a.contains(a.last()));
        assert(b.contains(a.last()));
        assert(b.len() > 0);
        assert(b.contains(b.last()));
        assert(a.contains(b.last()));
        let i = choose|i: int| 0 <= i < a.len() && a[i] == b.last();
        let j = choose|j: int| 0 <= j < b.len() && b[j] == a.last();
        assert(a.last() == b.last());
        let x = a.drop_last();
        let y = b.drop_last();
        assert forall|v: u32| x.contains(v) <==> y.contains(v) by {
            if x.contains(v) {
                let k = choose|k: int| 0 <= k < x.len() && x[k] == v;
                assert(a[k] == v);
                assert(a.contains(v));
                let l = choose|l: int| 0 <= l < b.len() && b[l] == v;
                assert(l < b.len() - 1);
                assert(y[l] == v);
            }
            if y.contains(v) {
                let k = choose|k: int| 0 <= k < y.len() && y[k] == v;
                assert(b[k] == v);
                assert(b.contains(v));
                let l = choose|l: int| 0 <= l < a.len() && a[l] == v;
                assert(l < a.len() - 1);
                assert(x[l] == v);
            }
        }
        ascending_values_determine(x, y);
        assert(a =~= x.push(a.last()));
        assert(b =~= y.push(b.last()));
    }
}

/// The values of `points` in strictly ascending order.
pub open spec fn ascending_of(points: Seq<u32>) -> Seq<u32> {
    choose|r: Seq<u32>| is_ascending_of(r, points)
}

/// `r` holds the values of `points` in strictly ascending order.
pub open spec fn is_ascending_of(r: Seq<u32>, points: Seq<u32>) -> bool {
    strictly_ascending(r) && forall|x: u32| r.contains(x) <==> points.contains(x)
}

/// Only one sequence holds the values of `points` in strictly ascending order.
pub proof fn ascending_of_is(r: Seq<u32>, points: Seq<u32>)
    requires
        is_ascending_of(r, points),
    ensures
        ascending_of(points) == r,
{
    let c = ascending_of(points);
    assert(is_ascending_of(c, points));
    assert forall|x: u32| c.contains(x) <==> r.contains(x) by {
        assert(points.contains(x) <==> c.contains(x));
        assert(points.contains(x) <==> r.contains(x));
    }
    ascending_values_determine(c, r);
}

/// Dropping repeats keeps the set of values and leaves each value once.
pub proof fn without_repeats_values(points: Seq<u32>)
    ensures
        forall|x: u32| without_repeats(points).contains(x) <==> points.contains(x),
        without_repeats(points).no_duplicates(),
    decreases points.len(),
{
    if points.len() > 0 {
        let front = points.drop_last();
        without_repeats_values(front);
        let head = without_repeats(front);
        let all = without_repeats(points);
        assert forall|x: u32| all.contains(x) <==> points.contains(x) by {
            if points.contains(x) {
                let k = choose|k: int| 0 <= k < points.len() && points[k] == x;
                if k < front.len() {
                    assert(front[k] == x);
                    assert(front.contains(x));
                    let l = choose|l: int| 0 <= l < head.len() && head[l] == x;
                    assert(all[l] == x);
                } else if front.contains(points.last()) {
                    assert(front.contains(x));
                    assert(head.contains(x));
                } else {
                    assert(all.last() == x);
                }
            }
            if all.contains(x) {
                let k = choose|k: int| 0 <= k < all.len() && all[k] == x;
                if k < head.len() {
                    assert(head[k] == x);
                    assert(head.contains(x));
                    assert(front.contains(x));
                    let l = choose|l: int| 0 <= l < front.len() && front[l] == x;
                    assert(points[l] == x);
                } else {
                    assert(points.last() == x);
                }
            }
        }
        if !front.contains(points.last()) {
            assert forall|i: int, j: int| 0 <= i < j < all.len() implies all[i] != all[j] by {
                assert(head.contains(all[i]));
            }
        }
    }
}

/// Every axis has its values in ascending order.
pub proof fn ascending_of_holds(points: Seq<u32>)
    ensures
        is_ascending_of(ascending_of(points), points),
{
    broadcast use vstd::seq_lib::group_to_multiset_ensures;

    let once = without_repeats(points);
    without_repeats_values(points);
    let leq = |a: u32, b: u32| a <= b;
    assert(vstd::relations::total_ordering(leq));
    once.lemma_sort_by_ensures(leq);
    let r = once.sort_by(leq);
    assert forall|x: u32| r.contains(x) <==> points.contains(x) by {
        assert(once.contains(x) <==> once.to_multiset().count(x) > 0);
        assert(r.contains(x) <==> r.to_multiset().count(x) > 0);
    }
    once.lemma_multiset_has_no_duplicates();
    assert(r.to_multiset() == once.to_multiset());
    r.lemma_multiset_has_no_duplicates_conv();
    assert forall|i: int, j: int| 0 <= i < j < r.len() implies r[i] < r[j] by {
        assert(leq(r[i], r[j]));
        assert(r[i] != r[j]);
    }
    assert(is_ascending_of(r, points));
}

/// An axis in ascending order has a point if it had one before.
pub proof fn ascending_keeps_some(points: Seq<u32>)
    requires
        points.len() > 0,
    ensures
        ascending_of(points).len() > 0,
{
    ascending_of_holds(points);
    assert(points.contains(points[0]));
    assert(ascending_of(points).contains(points[0]));
}

/// A chained axis has a point if either part has one.
pub proof fn chained_keeps_some(base: Seq<u32>, more: Seq<u32>)
    requires
        base.len() + more.len() > 0,
    ensures
        chained(base, more).len() > 0,
{
    without_repeats_values(base + more);
    assert((base + more).contains((base + more)[0]));
    assert(chained(base, more).contains((base + more)[0]));
}

/// The powers of two of an axis lie between one and the last of them.
pub proof fn pow2_points_within(low: nat, high: nat, point: u32)
    requires
        low <= high < 32,
        pow2_points(low, high).contains(point),
    ensures
        1 <= point <= two_to(high),
{
    let points = pow2_points(low, high);
    let i = choose|i: int| 0 <= i < points.len() && points[i] == point;
    two_to_monotonic((low + i) as nat, high);
    two_to_monotonic(high, 31);
    two_to_32();
}

/// Chaining puts an axis without repeats first, in its own order.
pub proof fn chained_keeps_base_first(base: Seq<u32>, more: Seq<u32>)
    requires
        base.no_duplicates(),
    ensures
        base.is_prefix_of(chained(base, more)),
    decreases more.len(),
{
    if more.len() == 0 {
        assert(base + more =~= base);
        without_repeats_is_identity(base);
    } else {
        chained_keeps_base_first(base, more.drop_last());
        assert((base + more).drop_last() =~= base + more.drop_last());
    }
}

/// An axis without repeats is left as it is.
pub proof fn without_repeats_is_identity(points: Seq<u32>)
    requires
        points.no_duplicates(),
    ensures
        without_repeats(points) == points,
    decreases points.len(),
{
    if points.len() > 0 {
        without_repeats_is_identity(points.drop_last());
        assert(!points.drop_last().contains(points.last()));
        assert(points =~= points.drop_last().push(points.last()));
    }
}

proof fn two_to_monotonic(a: nat, b: nat)
    requires
        a <= b,
    ensures
        1 <= two_to(a) <= two_to(b),
    decreases b,
{
    if b > 0 {
        if a < b {
            two_to_monotonic(a, (b - 1) as nat);
        } else {
            two_to_monotonic((a - 1) as nat, (b - 1) as nat);
        }
    }
}

proof fn two_to_32()
    ensures
        two_to(31) == 0x8000_0000,
{
    reveal_with_fuel(two_to, 32);
}

/// Whether `points` holds `value`.
pub fn holds_point(points: &Vec<u32>, value: u32) -> (r: bool)
    ensures
        r == points@.contains(value),
{
    let mut i: usize = 0;
    while i < points.len()
        invariant
            i <= points@.len(),
            forall|j: int| 0 <= j < i ==> points@[j] != value,
        decreases points@.len() - i,
    {
        if points[i] == value {
            assert(points@[i as int] == value);
            return true;
        }
        i += 1;
    }
    false
}

/// The values of `points` in strictly ascending order.
pub fn ascending(points: &Vec<u32>) -> (r: Vec<u32>)
    ensures
        r@ == ascending_of(points@),
        strictly_ascending(r@),
        forall|x: u32| r@.contains(x) <==> points@.contains(x),
{
    let mut out: Vec<u32> = Vec::new();
    let mut i: usize = 0;
    assert(points@.take(0) =~= Seq::<u32>::empty());
    while i < points.len()
        invariant
            i <= points@.len(),
            strictly_ascending(out@),
            forall|x: u32| out@.contains(x) <==> points@.take(i as int).contains(x),
        decreases points@.len() - i,
    {
        let value: u32 = points[i];
        let mut k: usize = 0;
        while k < out.len() && out[k] < value
            invariant
                k <= out@.len(),
                strictly_ascending(out@),
                forall|j: int| 0 <= j < k ==> out@[j] < value,
            decreases out@.len() - k,
        {
            k += 1;
        }
        let ghost before = out@;
        let ghost seen = points@.take(i as int);
        let ghost next = points@.take(i + 1);
        proof {
            assert(next =~= seen.push(value));
        }
        if k == out.len() || out[k] != value {
            out.insert(k, value);
            proof {
                assert(out@ =~= before.insert(k as int, value));
                assert forall|x: u32| out@.contains(x) <==> next.contains(x) by {
                    if out@.contains(x) {
                        let l = choose|l: int| 0 <= l < out@.len() && out@[l] == x;
                        if l < k {
                            assert(before[l] == x);
                        } else if l > k {
                            assert(before[l - 1] == x);
                        }
                        if x == value {
                            assert(next[i as int] == x);
                        } else {
                            assert(before.contains(x));
                            let m = choose|m: int| 0 <= m < seen.len() && seen[m] == x;
                            assert(next[m] == x);
                        }
                    }
                    if next.contains(x) {
                        if x == value {
                            assert(out@[k as int] == x);
                        } else {
                            let m = choose|m: int| 0 <= m < next.len() && next[m] == x;
                            assert(seen[m] == x);
                            assert(before.contains(x));
                            let l = choose|l: int| 0 <= l < before.len() && before[l] == x;
                            if l < k {
                                assert(out@[l] == x);
                            } else {
                                assert(out@[l + 1] == x);
                            }
                        }
                    }
                }
            }
        } else {
            proof {
                assert forall|x: u32| out@.contains(x) <==> next.contains(x) by {
                    if out@.contains(x) {
                        let m = choose|m: int| 0 <= m < seen.len() && seen[m] == x;
                        assert(next[m] == x);
                    }
                    if next.contains(x) {
                        if x == value {
                            assert(out@[k as int] == x);
                        } else {
                            let m = choose|m: int| 0 <= m < next.len() && next[m] == x;
                            assert(seen[m] == x);
                        }
                    }
                }
            }
        }
        i += 1;
    }
    proof {
        assert(points@.take(i as int) =~= points@);
        ascending_of_is(out@, points@);
    }
    out
}

/// No point is smaller than the one before.
pub open spec fn never_descending(points: Seq<u32>) -> bool {
    forall|i: int, j: int| 0 <= i <= j < points.len() ==> points[i] <= points[j]
}

/// `r` holds the points of `points`, repeats included, without descending.
pub open spec fn is_sorted_of(r: Seq<u32>, points: Seq<u32>) -> bool {
    never_descending(r) && r.to_multiset() == points.to_multiset()
}

/// The points of `points`, repeats included, without descending.
pub open spec fn sorted_of(points: Seq<u32>) -> Seq<u32> {
    choose|r: Seq<u32>| is_sorted_of(r, points)
}

/// Only one sequence holds the points of `points` without descending.
pub proof fn sorted_of_is(r: Seq<u32>, points: Seq<u32>)
    requires
        is_sorted_of(r, points),
    ensures
        sorted_of(points) == r,
{
    let c = sorted_of(points);
    assert(is_sorted_of(c, points));
    let leq = |a: u32, b: u32| a <= b;
    assert(vstd::relations::total_ordering(leq));
    assert(vstd::relations::sorted_by(c, leq));
    assert(vstd::relations::sorted_by(r, leq));
    vstd::seq_lib::lemma_sorted_unique(c, r, leq);
}

/// The points of `points`, repeats included, without descending.
pub fn sorted(points: &Vec<u32>) -> (r: Vec<u32>)
    ensures
        r@ == sorted_of(points@),
        never_descending(r@),
{
    broadcast use vstd::seq_lib::group_to_multiset_ensures;

    let mut out: Vec<u32> = Vec::new();
    let mut i: usize = 0;
    assert(points@.take(0) =~= out@);
    while i < points.len()
        invariant
            i <= points@.len(),
            never_descending(out@),
            out@.to_multiset() == points@.take(i as int).to_multiset(),
        decreases points@.len() - i,
    {
        let value: u32 = points[i];
        let mut k: usize = 0;
        while k < out.len() && out[k] <= value
            invariant
                k <= out@.len(),
                never_descending(out@),
                forall|j: int| 0 <= j < k ==> out@[j] <= value,
            decreases out@.len() - k,
        {
            k += 1;
        }
        let ghost before = out@;
        out.insert(k, value);
        proof {
            assert(out@ =~= before.insert(k as int, value));
            vstd::seq_lib::to_multiset_insert(before, k as int, value);
            let seen = points@.take(i as int);
            assert(points@.take(i + 1) =~= seen.push(value));
            vstd::seq_lib::to_multiset_build(seen, value);
            assert(out@.to_multiset() =~= seen.push(value).to_multiset());
        }
        i += 1;
    }
    proof {
        assert(points@.take(i as int) =~= points@);
        sorted_of_is(out@, points@);
    }
    out
}

/// Builders of sweep axes.
pub struct Axis;

impl Axis {
    /// The powers of two `2^low, ..., 2^high`.
    pub fn pow2(low: u32, high: u32) -> (r: Vec<u32>)
        requires
            low <= high < 32,
        ensures
            r@ == pow2_points(low as nat, high as nat),
    {
        let mut out: Vec<u32> = Vec::new();
        let mut value: u32 = 1;
        let mut e: u32 = 0;
        proof {
            two_to_32();
        }
        while e < low
            invariant
                e <= low <= high < 32,
                value == two_to(e as nat),
                two_to(31) == 0x8000_0000,
            decreases low - e,
        {
            proof {
                two_to_monotonic((e + 1) as nat, 31);
            }
            value = value * 2;
            e += 1;
        }
        out.push(value);
        while e < high
            invariant
                low <= e <= high < 32,
                value == two_to(e as nat),
                two_to(31) == 0x8000_0000,
                out@.len() == e - low + 1,
                forall|i: int| 0 <= i < out@.len() ==> out@[i] == two_to((low + i) as nat) as u32,
            decreases high - e,
        {
            proof {
                two_to_monotonic((e + 1) as nat, 31);
            }
            value = value * 2;
            e += 1;
            out.push(value);
        }
        assert(out@ =~= pow2_points(low as nat, high as nat));
        out
    }

    /// The points `start, start + step, ...` up to and including `end`.
    pub fn arithmetic(start: u32, end: u32, step: u32) -> (r: Vec<u32>)
        requires
            start <= end,
            0 < step,
        ensures
            r@ == arithmetic_points(start as nat, end as nat, step as nat),
    {
        let mut out: Vec<u32> = Vec::new();
        let count: u32 = (end - start) / step;
        proof {
            assert(count * step <= end - start) by (nonlinear_arith)
                requires
                    count == (end - start) / (step as int),
                    step > 0,
                    end >= start,
            ;
        }
        let mut i: u32 = 0;
        let mut value: u32 = start;
        out.push(value);
        assert(start + 0 * step == start) by (nonlinear_arith);
        while i < count
            invariant
                i <= count,
                count == (end - start) / (step as int),
                count * step <= end - start,
                start <= end,
                value == start + i * step,
                out@.len() == i + 1,
                forall|j: int| 0 <= j <= i ==> out@[j] == (start + j * step) as u32,
            decreases count - i,
        {
            proof {
                assert((i + 1) * step == i * step + step) by (nonlinear_arith);
                assert((i + 1) * step <= count * step) by (nonlinear_arith)
                    requires
                        i + 1 <= count,
                ;
            }
            value = value + step;
            i += 1;
            out.push(value);
        }
        assert(out@ =~= arithmetic_points(start as nat, end as nat, step as nat));
        out
    }

    /// The given points, in the given order.
    pub fn values(points: Vec<u32>) -> (r: Vec<u32>)
        ensures
            r@ == points@,
    {
        points
    }

    /// `base` continued by the points of `more` that it does not hold yet.
    pub fn chain(base: Vec<u32>, more: &Vec<u32>) -> (r: Vec<u32>)
        ensures
            r@ == chained(base@, more@),
    {
        let mut out: Vec<u32> = Vec::new();
        let ghost all = base@ + more@;
        let mut i: usize = 0;
        assert(all.take(0) =~= Seq::<u32>::empty());
        while i < base.len()
            invariant
                i <= base@.len(),
                all == base@ + more@,
                out@ == without_repeats(all.take(i as int)),
            decreases base@.len() - i,
        {
            proof {
                assert(all.take(i + 1).drop_last() =~= all.take(i as int));
                without_repeats_values(all.take(i as int));
            }
            if !holds_point(&out, base[i]) {
                out.push(base[i]);
            }
            i += 1;
        }
        let mut j: usize = 0;
        while j < more.len()
            invariant
                j <= more@.len(),
                all == base@ + more@,
                out@ == without_repeats(all.take(base@.len() + j)),
            decreases more@.len() - j,
        {
            proof {
                assert(all.take(base@.len() + j + 1).drop_last() =~= all.take(base@.len() + j));
                assert(all.take(base@.len() + j + 1).last() == more@[j as int]);
                without_repeats_values(all.take(base@.len() + j));
            }
            if !holds_point(&out, more[j]) {
                out.push(more[j]);
            }
            j += 1;
        }
        assert(all.take(base@.len() + j) =~= all);
        out
    }

    /// The points of `points` that are at most `limit`, in order.
    pub fn up_to(points: &Vec<u32>, limit: u32) -> (r: Vec<u32>)
        ensures
            r@ == at_most(points@, limit as int),
    {
        let mut out: Vec<u32> = Vec::new();
        let mut i: usize = 0;
        assert(points@.take(0) =~= Seq::<u32>::empty());
        while i < points.len()
            invariant
                i <= points@.len(),
                out@ == at_most(points@.take(i as int), limit as int),
            decreases points@.len() - i,
        {
            assert(points@.take(i + 1).drop_last() =~= points@.take(i as int));
            if points[i] <= limit {
                out.push(points[i]);
            }
            i += 1;
        }
        assert(points@.take(i as int) =~= points@);
        out
    }
}

/// Number of cells of a grid: the product of its axis lengths.
pub open spec fn cell_count(axes: Seq<Seq<u32>>) -> nat
    decreases axes.len(),
{
    if axes.len() == 0 {
        1
    } else {
        cell_count(axes.drop_last()) * axes.last().len()
    }
}

/// The coordinates of cell `index` in row-major order, the last axis varying fastest.
pub open spec fn cell_at(axes: Seq<Seq<u32>>, index: nat) -> Seq<u32>
    decreases axes.len(),
{
    if axes.len() == 0 {
        seq![]
    } else {
        let n = axes.last().len();
        cell_at(axes.drop_last(), index / n).push(axes.last()[(index % n) as int])
    }
}

/// A one-axis grid has a cell per point.
pub proof fn count_of_line(axes: Seq<Seq<u32>>)
    requires
        axes.len() == 1,
    ensures
        cell_count(axes) == axes[0].len(),
{
    reveal_with_fuel(cell_count, 2);
    assert(cell_count(axes.drop_last()) == 1);
    assert(cell_count(axes) == 1 * axes[0].len());
}

/// A two-axis grid has a cell per pair of points.
pub proof fn count_of_plane(axes: Seq<Seq<u32>>)
    requires
        axes.len() == 2,
    ensures
        cell_count(axes) == axes[0].len() * axes[1].len(),
{
    count_of_line(axes.drop_last());
}

/// A three-axis grid has a cell per triple of points.
pub proof fn count_of_block(axes: Seq<Seq<u32>>)
    requires
        axes.len() == 3,
    ensures
        cell_count(axes) == axes[0].len() * axes[1].len() * axes[2].len(),
{
    count_of_plane(axes.drop_last());
}

/// Cell `index` of a one-axis grid sits at the axis point of that index.
pub proof fn cell_at_1d(axis: Seq<u32>, index: nat)
    requires
        index < axis.len(),
    ensures
        cell_count(seq![axis]) == axis.len(),
        cell_at(seq![axis], index) =~= seq![axis[index as int]],
{
    reveal_with_fuel(cell_count, 2);
    reveal_with_fuel(cell_at, 2);
    let axes = seq![axis];
    assert(axes.drop_last() =~= Seq::<Seq<u32>>::empty());
    assert(cell_count(axes.drop_last()) * axis.len() == axis.len()) by (nonlinear_arith)
        requires
            cell_count(axes.drop_last()) == 1,
    ;
    vstd::arithmetic::div_mod::lemma_small_mod(index, axis.len());
}

/// Cell `i * columns + j` of a two-axis grid pairs point `i` of the first axis
/// with point `j` of the second.
pub proof fn cell_at_2d(rows: Seq<u32>, columns: Seq<u32>, i: nat, j: nat)
    requires
        i < rows.len(),
        j < columns.len(),
    ensures
        cell_count(seq![rows, columns]) == rows.len() * columns.len(),
        i * columns.len() + j < rows.len() * columns.len(),
        cell_at(seq![rows, columns], i * columns.len() + j) =~= seq![rows[i as int], columns[j as int]],
{
    let axes = seq![rows, columns];
    let n = columns.len() as int;
    assert(axes.drop_last() =~= seq![rows]);
    cell_at_1d(rows, i);
    assert(i * n + j < rows.len() * n) by (nonlinear_arith)
        requires
            0 <= i < rows.len(),
            0 <= j < n,
    ;
    vstd::arithmetic::div_mod::lemma_fundamental_div_mod_converse(i * n + j, n, i as int, j as int);
}

/// Cell `(i * B + j) * C + k` of a three-axis grid of `A * B * C` points sits at
/// point `i`, `j` and `k` of the three axes.
pub proof fn cell_at_3d(a: Seq<u32>, b: Seq<u32>, c: Seq<u32>, i: nat, j: nat, k: nat)
    requires
        i < a.len(),
        j < b.len(),
        k < c.len(),
    ensures
        cell_count(seq![a, b, c]) == a.len() * b.len() * c.len(),
        cell_at(seq![a, b, c], (i * b.len() + j) * c.len() + k) =~= seq![
            a[i as int],
            b[j as int],
            c[k as int],
        ],
{
    let axes = seq![a, b, c];
    let n = c.len() as int;
    let row = (i * b.len() + j) as nat;
    assert(axes.drop_last() =~= seq![a, b]);
    cell_at_2d(a, b, i, j);
    vstd::arithmetic::div_mod::lemma_fundamental_div_mod_converse(
        row * n + k,
        n,
        row as int,
        k as int,
    );
}

/// The cartesian product of sweep axes.
///
/// Axis `a` holds its points in multiples of `1 / units[a]`.
#[derive(Clone, Debug, PartialEq, Eq)]
pub struct SweepGrid {
    axes: Vec<Vec<u32>>,
    units: Vec<u32>,
}

impl SweepGrid {
    /// The points of each axis.
    pub closed spec fn points(&self) -> Seq<Seq<u32>> {
        self.axes@.map_values(|axis: Vec<u32>| axis@)
    }

    /// How many steps of each axis make one.
    pub closed spec fn scale(&self) -> Seq<u32> {
        self.units@
    }

    /// A grid whose axes hold whole numbers.
    pub fn new(axes: Vec<Vec<u32>>) -> (r: Self)
        ensures
            r.points() == axes@.map_values(|axis: Vec<u32>| axis@),
            r.scale() == Seq::new(axes@.len(), |i: int| 1u32),
    {
        let mut units: Vec<u32> = Vec::new();
        while units.len() < axes.len()
            invariant
                units@.len() <= axes@.len(),
                forall|i: int| 0 <= i < units@.len() ==> units@[i] == 1,
            decreases axes@.len() - units@.len(),
        {
            units.push(1);
        }
        assert(units@ =~= Seq::new(axes@.len(), |i: int| 1u32));
        SweepGrid { axes, units }
    }

    /// A grid whose axis `a` counts in steps of `1 / units[a]`.
    pub fn with_units(axes: Vec<Vec<u32>>, units: Vec<u32>) -> (r: Self)
        ensures
            r.points() == axes@.map_values(|axis: Vec<u32>| axis@),
            r.scale() == units@,
    {
        SweepGrid { axes, units }
    }

    /// The axes, each a list of points.
    pub fn axes(&self) -> (r: &Vec<Vec<u32>>)
        ensures
            r@.map_values(|axis: Vec<u32>| axis@) == self.points(),
    {
        &self.axes
    }

    /// How many steps of each axis make one.
    pub fn units(&self) -> (r: &Vec<u32>)
        ensures
            r@ == self.scale(),
    {
        &self.units
    }

    /// Number of cells of the grid.
    pub fn len(&self) -> (r: usize)
        requires
            cell_count(self.points()) <= usize::MAX,
        ensures
            r == cell_count(self.points()),
    {
        let ghost all = self.points();
        let mut a: usize = 0;
        while a < self.axes.len()
            invariant
                a <= self.axes@.len(),
                all == self.points(),
                all.len() == self.axes@.len(),
                forall|i: int| 0 <= i < a ==> #[trigger] all[i].len() > 0,
            decreases self.axes@.len() - a,
        {
            if self.axes[a].len() == 0 {
                proof {
                    assert(all[a as int].len() == 0);
                    empty_axis_empties(all, a as int);
                }
                return 0;
            }
            assert(all[a as int].len() > 0);
            a += 1;
        }
        let mut count: usize = 1;
        a = 0;
        assert(all.take(0) =~= Seq::<Seq<u32>>::empty());
        while a < self.axes.len()
            invariant
                a <= self.axes@.len(),
                all == self.points(),
                all.len() == self.axes@.len(),
                count == cell_count(all.take(a as int)),
                cell_count(all) <= usize::MAX,
                forall|i: int| 0 <= i < all.len() ==> #[trigger] all[i].len() > 0,
            decreases self.axes@.len() - a,
        {
            proof {
                assert(all.take(a + 1).drop_last() =~= all.take(a as int));
                assert(all.take(a + 1).last() == self.axes@[a as int]@);
                prefix_count_bound(all, a + 1);
            }
            count = count * self.axes[a].len();
            a += 1;
        }
        assert(all.take(a as int) =~= all);
        count
    }

    /// The coordinates of cell `index`, the last axis varying fastest.
    pub fn cell(&self, index: usize) -> (r: Vec<u32>)
        requires
            index < cell_count(self.points()),
        ensures
            r@ == cell_at(self.points(), index as nat),
    {
        let ghost all = self.points();
        let mut reversed: Vec<u32> = Vec::new();
        let mut rest: usize = index;
        let mut a: usize = self.axes.len();
        let ghost mut tail: Seq<u32> = seq![];
        proof {
            assert(all.take(a as int) =~= all);
            assert(cell_at(all, index as nat) + tail =~= cell_at(all, index as nat));
            assert forall|i: int| 0 <= i < all.len() implies #[trigger] all[i].len() > 0 by {
                if all[i].len() == 0 {
                    empty_axis_empties(all, i);
                }
            }
        }
        while a > 0
            invariant
                a <= self.axes@.len(),
                all == self.points(),
                all.len() == self.axes@.len(),
                forall|i: int| 0 <= i < all.len() ==> #[trigger] all[i].len() > 0,
                forall|i: int| 0 <= i < all.len() ==> #[trigger] all[i] == self.axes@[i]@,
                cell_at(all, index as nat) == cell_at(all.take(a as int), rest as nat) + tail,
                tail == reversed@.reverse(),
            decreases a,
        {
            a -= 1;
            let n: usize = self.axes[a].len();
            let ghost prefix = all.take(a + 1);
            proof {
                assert(all[a as int].len() > 0);
                assert(prefix.drop_last() =~= all.take(a as int));
                assert(prefix.last() == self.axes@[a as int]@);
            }
            let point: u32 = self.axes[a][rest % n];
            let ghost before = reversed@;
            reversed.push(point);
            proof {
                let head = cell_at(all.take(a as int), (rest as nat) / (n as nat));
                assert(cell_at(prefix, rest as nat) == head.push(point));
                assert(head.push(point) + tail =~= head + (seq![point] + tail));
                assert(reversed@.reverse() =~= seq![point] + before.reverse());
                tail = seq![point] + tail;
            }
            rest = rest / n;
        }
        proof {
            assert(all.take(0) =~= Seq::<Seq<u32>>::empty());
            assert(cell_at(all.take(0), rest as nat) + tail =~= tail);
        }
        let mut out: Vec<u32> = Vec::new();
        let mut k: usize = reversed.len();
        while k > 0
            invariant
                k <= reversed@.len(),
                out@.len() == reversed@.len() - k,
                forall|i: int| 0 <= i < out@.len() ==> out@[i] == reversed@[reversed@.len() - 1 - i],
            decreases k,
        {
            k -= 1;
            out.push(reversed[k]);
        }
        assert(out@ =~= reversed@.reverse());
        out
    }
}

/// A grid with an axis without points has no cells.
pub proof fn empty_axis_empties(axes: Seq<Seq<u32>>, i: int)
    requires
        0 <= i < axes.len(),
        axes[i].len() == 0,
    ensures
        cell_count(axes) == 0,
    decreases axes.len(),
{
    let front = axes.drop_last();
    if i == axes.len() - 1 {
        assert(cell_count(front) * 0 == 0) by (nonlinear_arith);
    } else {
        assert(front[i].len() == 0);
        empty_axis_empties(front, i);
        assert(0 * axes.last().len() == 0) by (nonlinear_arith);
    }
}

/// Each coordinate of a cell of the grid is a point of its axis.
pub proof fn cell_on_axes(axes: Seq<Seq<u32>>, index: nat)
    requires
        index < cell_count(axes),
    ensures
        cell_at(axes, index).len() == axes.len(),
        forall|i: int|
            0 <= i < axes.len() ==> axes[i].contains(#[trigger] cell_at(axes, index)[i]),
    decreases axes.len(),
{
    if axes.len() > 0 {
        let front = axes.drop_last();
        let n = axes.last().len();
        if n == 0 {
            empty_axis_empties(axes, axes.len() - 1);
        }
        assert(index / n < cell_count(front)) by (nonlinear_arith)
            requires
                n > 0,
                index < cell_count(front) * n,
        ;
        cell_on_axes(front, index / n);
        let cell = cell_at(axes, index);
        assert forall|i: int| 0 <= i < axes.len() implies axes[i].contains(#[trigger] cell[i]) by {
            if i < front.len() {
                assert(cell[i] == cell_at(front, index / n)[i]);
                assert(front[i] == axes[i]);
            } else {
                assert(cell[i] == axes[i][(index % n) as int]);
            }
        }
    }
}

/// The cells over the first axes are no more than the cells over all of them.
proof fn prefix_count_bound(axes: Seq<Seq<u32>>, n: int)
    requires
        0 <= n <= axes.len(),
        forall|i: int| 0 <= i < axes.len() ==> #[trigger] axes[i].len() > 0,
    ensures
        cell_count(axes.take(n)) <= cell_count(axes),
    decreases axes.len(),
{
    if n == axes.len() {
        assert(axes.take(n) =~= axes);
    } else {
        let front = axes.drop_last();
        assert(front.take(n) =~= axes.take(n));
        assert forall|i: int| 0 <= i < front.len() implies #[trigger] front[i].len() > 0 by {
            assert(axes[i].len() > 0);
        }
        prefix_count_bound(front, n);
        assert(axes[axes.len() - 1].len() > 0);
        assert(cell_count(front) <= cell_count(front) * axes.last().len()) by (nonlinear_arith)
            requires
                axes.last().len() > 0,
        ;
    }
}

/// A non-negative rational coordinate.
#[derive(Clone, Copy, Debug, PartialEq, Eq, Structural)]
pub struct Ratio {
    pub numerator: u64,
    pub denominator: u64,
}

/// A whole coordinate.
pub open spec fn whole(value: int) -> Ratio {
    Ratio { numerator: value as u64, denominator: 1 }
}

impl Ratio {
    /// A whole coordinate.
    pub fn from_whole(value: u32) -> (r: Ratio)
        ensures
            r == whole(value as int),
    {
        Ratio { numerator: value as u64, denominator: 1 }
    }
}

} // verus!
