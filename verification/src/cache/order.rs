//! Sorting the points of an axis while keeping track of where they came from.

use crate::cache::interp::{all_defined, in_order};
use crate::cache::scalar::{Scalar, Wide};
use vstd::prelude::*;

verus! {

/// Whether point `a` of an axis goes before point `b`: it is smaller, or it is equal
/// and came first.
pub open spec fn precedes<W: Wide>(axis: Seq<W>, a: usize, b: usize) -> bool {
    axis[a as int].place() < axis[b as int].place() || (axis[a as int].place()
        == axis[b as int].place() && a < b)
}

/// Whether `order` lists points of an axis in ascending order, equal ones in the order
/// they came in.
pub open spec fn lists_in_order<W: Wide>(axis: Seq<W>, order: Seq<usize>) -> bool {
    forall|p: int, q: int|
        0 <= p < q < order.len() ==> precedes(axis, #[trigger] order[p], #[trigger] order[q])
}

/// Whether `order` lists the first `count` points of an axis and no others.
pub open spec fn lists_first(order: Seq<usize>, count: int) -> bool {
    &&& order.len() == count
    &&& forall|p: int| 0 <= p < order.len() ==> #[trigger] order[p] < count
    &&& forall|k: usize| k < count ==> #[trigger] order.contains(k)
}

/// Whether `order` is the ascending order of an axis.
pub open spec fn is_stable_order<W: Wide>(axis: Seq<W>, order: Seq<usize>) -> bool {
    lists_first(order, axis.len() as int) && lists_in_order(axis, order)
}

/// The ascending order of an axis, equal points in the order they came in.
pub open spec fn stable_order<W: Wide>(axis: Seq<W>) -> Seq<usize> {
    choose|order: Seq<usize>| is_stable_order(axis, order)
}

/// Two listings of the same points in order are the same.
proof fn listings_agree<W: Wide>(axis: Seq<W>, a: Seq<usize>, b: Seq<usize>)
    requires
        lists_in_order(axis, a),
        lists_in_order(axis, b),
        forall|k: usize| #[trigger] a.contains(k) == b.contains(k),
    ensures
        a =~= b,
    decreases a.len(),
{
    if a.len() == 0 {
        if b.len() > 0 {
            assert(b.contains(b[0]));
            assert(a.contains(b[0]));
        }
    } else {
        assert(a.contains(a[0]));
        assert(b.contains(a[0]));
        let p = b.index_of(a[0]);
        assert(a.contains(b[0])) by {
            assert(b.contains(b[0]));
        }
        let q = a.index_of(b[0]);
        if p != 0 {
            assert(precedes(axis, b[0], b[p]));
            assert(precedes(axis, a[0], a[q]));
        }
        let ta = a.drop_first();
        let tb = b.drop_first();
        assert forall|k: usize| #[trigger] ta.contains(k) == tb.contains(k) by {
            if ta.contains(k) {
                let i = ta.index_of(k);
                assert(a[i + 1] == k);
                assert(precedes(axis, a[0], a[i + 1]));
                assert(a.contains(k));
                let j = b.index_of(k);
                assert(b[j] == k && j > 0);
                assert(tb[j - 1] == k);
            }
            if tb.contains(k) {
                let i = tb.index_of(k);
                assert(b[i + 1] == k);
                assert(precedes(axis, b[0], b[i + 1]));
                assert(b.contains(k));
                assert(a.contains(k));
                let j = a.index_of(k);
                assert(a[j] == k && j > 0);
                assert(ta[j - 1] == k);
            }
        }
        assert(lists_in_order(axis, ta)) by {
            assert forall|x: int, y: int| 0 <= x < y < ta.len() implies precedes(
                axis,
                #[trigger] ta[x],
                #[trigger] ta[y],
            ) by {
                assert(precedes(axis, a[x + 1], a[y + 1]));
            }
        }
        assert(lists_in_order(axis, tb)) by {
            assert forall|x: int, y: int| 0 <= x < y < tb.len() implies precedes(
                axis,
                #[trigger] tb[x],
                #[trigger] tb[y],
            ) by {
                assert(precedes(axis, b[x + 1], b[y + 1]));
            }
        }
        listings_agree(axis, ta, tb);
        assert(a =~= seq![a[0]] + ta);
        assert(b =~= seq![b[0]] + tb);
    }
}

/// An axis has only one ascending order.
pub proof fn stable_order_is<W: Wide>(axis: Seq<W>, order: Seq<usize>)
    requires
        is_stable_order(axis, order),
        axis.len() <= usize::MAX,
    ensures
        stable_order(axis) == order,
{
    let chosen = stable_order(axis);
    assert(is_stable_order(axis, chosen));
    assert forall|k: usize| #[trigger] order.contains(k) == chosen.contains(k) by {
        if order.contains(k) {
            let i = order.index_of(k);
            assert(order[i] < axis.len());
        }
        if chosen.contains(k) {
            let i = chosen.index_of(k);
            assert(chosen[i] < axis.len());
        }
    }
    listings_agree(axis, order, chosen);
}

/// Items in the given order.
pub open spec fn arranged<T>(items: Seq<T>, order: Seq<usize>) -> Seq<T> {
    Seq::new(order.len(), |p: int| items[order[p] as int])
}

/// No point is undefined.
pub open spec fn all_points_defined<W: Wide>(points: Seq<W>) -> bool {
    forall|i: int| 0 <= i < points.len() ==> !(#[trigger] points[i]).undefined()
}

/// The points of an axis as the numbers that a table is held in.
pub open spec fn narrowed_points<S: Scalar>(points: Seq<S::Wide>) -> Seq<S> {
    Seq::new(points.len(), |i: int| S::narrowed(points[i]))
}

/// The numbers that a table is held in, widened.
pub open spec fn widened_points<S: Scalar>(points: Seq<S>) -> Seq<S::Wide> {
    Seq::new(points.len(), |i: int| points[i].widened())
}

/// The step from a point of an axis to the next, narrowed.
pub open spec fn step_of<S: Scalar>(low: S::Wide, high: S::Wide) -> S {
    S::narrowed(high.difference(low))
}

/// The step from a point of an axis to the next, narrowed.
pub fn step_between<S: Scalar>(low: S::Wide, high: S::Wide) -> (r: S)
    ensures
        r == step_of::<S>(low, high),
{
    S::narrow(high.minus(low))
}

/// The ascending order of an axis, equal points in the order they came in.
pub fn sort_order<W: Wide>(axis: &Vec<W>) -> (r: Vec<usize>)
    ensures
        is_stable_order(axis@, r@),
        r@ == stable_order(axis@),
{
    let mut order: Vec<usize> = Vec::new();
    let mut i: usize = 0;
    while i < axis.len()
        invariant
            i <= axis@.len(),
            lists_first(order@, i as int),
            lists_in_order(axis@, order@),
        decreases axis@.len() - i,
    {
        let mut p: usize = order.len();
        while p > 0 && axis[i].sorts_before(axis[order[p - 1]])
            invariant
                p <= order@.len(),
                i < axis@.len(),
                lists_first(order@, i as int),
                lists_in_order(axis@, order@),
                forall|q: int|
                    p <= q < order@.len() ==> precedes(axis@, i, #[trigger] order@[q]),
            decreases p,
        {
            p = p - 1;
        }
        let ghost before = order@;
        proof {
            assert forall|q: int| 0 <= q < p implies precedes(axis@, #[trigger] before[q], i) by {
                assert(before[q] < i);
                if q < p - 1 {
                    assert(precedes(axis@, before[q], before[p - 1]));
                }
            }
        }
        order.insert(p, i);
        proof {
            let after = order@;
            assert forall|k: usize| k < i + 1 implies #[trigger] after.contains(k) by {
                if k == i {
                    assert(after[p as int] == k);
                } else {
                    assert(before.contains(k));
                    let q = before.index_of(k);
                    if q < p {
                        assert(after[q] == k);
                    } else {
                        assert(after[q + 1] == k);
                    }
                }
            }
            assert forall|x: int, y: int| 0 <= x < y < after.len() implies precedes(
                axis@,
                #[trigger] after[x],
                #[trigger] after[y],
            ) by {
                if x < p && y < p {
                    assert(precedes(axis@, before[x], before[y]));
                } else if x < p && y == p {
                    assert(precedes(axis@, before[x], i));
                } else if x < p {
                    assert(precedes(axis@, before[x], before[y - 1]));
                } else if x == p {
                    assert(precedes(axis@, i, before[y - 1]));
                } else {
                    assert(precedes(axis@, before[x - 1], before[y - 1]));
                }
            }
        }
        i += 1;
    }
    proof {
        stable_order_is(axis@, order@);
    }
    order
}

/// Items in the given order.
pub fn arrange<T: Copy>(items: &Vec<T>, order: &Vec<usize>) -> (r: Vec<T>)
    requires
        lists_first(order@, items@.len() as int),
    ensures
        r@ == arranged(items@, order@),
{
    let mut out: Vec<T> = Vec::new();
    let mut p: usize = 0;
    while p < order.len()
        invariant
            p <= order@.len(),
            lists_first(order@, items@.len() as int),
            out@.len() == p,
            forall|q: int| 0 <= q < p ==> out@[q] == items@[order@[q] as int],
        decreases order@.len() - p,
    {
        out.push(items[order[p]]);
        p += 1;
    }
    assert(out@ =~= arranged(items@, order@));
    out
}

/// The points of an axis in ascending order, as wide as they came.
pub fn sorted_points<W: Wide>(axis: &Vec<W>) -> (r: Vec<W>)
    ensures
        r@ == arranged(axis@, stable_order(axis@)),
{
    let order: Vec<usize> = sort_order(axis);
    arrange(axis, &order)
}

/// The points of an axis in its ascending order, narrowed. Points that are told apart only
/// by their width may come together, but none descends.
pub fn arrange_narrowed<S: Scalar>(axis: &Vec<S::Wide>, order: &Vec<usize>) -> (r: Vec<S>)
    requires
        is_stable_order(axis@, order@),
        all_points_defined(axis@),
    ensures
        r@ == narrowed_points::<S>(arranged(axis@, order@)),
        r@.len() == axis@.len(),
        in_order(r@),
        all_defined(r@),
{
    let mut out: Vec<S> = Vec::new();
    let mut p: usize = 0;
    while p < order.len()
        invariant
            p <= order@.len(),
            is_stable_order(axis@, order@),
            all_points_defined(axis@),
            out@.len() == p,
            all_defined(out@),
            forall|q: int|
                0 <= q < p ==> #[trigger] out@[q] == S::narrowed(axis@[order@[q] as int]),
            forall|q: int, other: S::Wide|
                #![trigger out@[q], S::narrowed(other)]
                0 <= q < p && !other.undefined() && axis@[order@[q] as int].place()
                    <= other.place() ==> out@[q].rank() <= S::narrowed(other).rank(),
        decreases order@.len() - p,
    {
        assert(order@[p as int] < axis@.len());
        let point: S::Wide = axis[order[p]];
        assert(!point.undefined());
        out.push(S::narrow(point));
        p += 1;
    }
    proof {
        assert forall|i: int, j: int| 0 <= i <= j < out@.len() implies out@[i].rank()
            <= out@[j].rank() by {
            let later = axis@[order@[j] as int];
            assert(order@[j] < axis@.len());
            assert(out@[j] == S::narrowed(later));
            if i < j {
                assert(precedes(axis@, order@[i], order@[j]));
            }
        }
        assert(out@ =~= narrowed_points::<S>(arranged(axis@, order@)));
    }
    out
}

/// The ascending order of points that are already narrowed.
pub fn narrowed_order<S: Scalar>(points: &Vec<S>) -> (r: Vec<usize>)
    requires
        all_defined(points@),
    ensures
        is_stable_order(widened_points(points@), r@),
        r@ == stable_order(widened_points(points@)),
        in_order(arranged(points@, r@)),
        all_defined(arranged(points@, r@)),
{
    let mut wide: Vec<S::Wide> = Vec::new();
    let mut i: usize = 0;
    while i < points.len()
        invariant
            i <= points@.len(),
            all_defined(points@),
            wide@.len() == i,
            forall|j: int| 0 <= j < i ==> #[trigger] wide@[j] == points@[j].widened(),
            forall|j: int, other: S|
                #![trigger points@[j], other.widened()]
                0 <= j < i && !other.undefined() && points@[j].widened().place()
                    <= other.widened().place() ==> points@[j].rank() <= other.rank(),
        decreases points@.len() - i,
    {
        assert(!points@[i as int].undefined());
        wide.push(points[i].widen());
        i += 1;
    }
    assert(wide@ =~= widened_points(points@));
    let order: Vec<usize> = sort_order(&wide);
    proof {
        let xs = arranged(points@, order@);
        assert forall|i: int, j: int| 0 <= i <= j < xs.len() implies xs[i].rank() <= xs[j].rank() by {
            assert(order@[i] < points@.len() && order@[j] < points@.len());
            let (low, high) = (points@[order@[i] as int], points@[order@[j] as int]);
            assert(!low.undefined() && !high.undefined());
            if i < j {
                assert(precedes(wide@, order@[i], order@[j]));
                assert(wide@[order@[i] as int] == low.widened());
                assert(wide@[order@[j] as int] == high.widened());
            }
        }
        assert forall|i: int| 0 <= i < xs.len() implies !(#[trigger] xs[i]).undefined() by {
            assert(order@[i] < points@.len());
            assert(!points@[order@[i] as int].undefined());
        }
    }
    order
}

} // verus!
