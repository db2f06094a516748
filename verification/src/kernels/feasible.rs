//! Leaving out the cells of a sweep that no launch can have, and putting the measured
//! ones back in their places.

use vstd::prelude::*;

verus! {

/// The items of the cells that are not masked, in order.
pub open spec fn kept<T>(items: Seq<T>, mask: Seq<bool>) -> Seq<T>
    decreases items.len(),
{
    if items.len() == 0 {
        seq![]
    } else {
        let front = kept(items.drop_last(), mask);
        if mask[items.len() - 1] {
            front
        } else {
            front.push(items.last())
        }
    }
}

/// The number of cells before `n` that are not masked.
pub open spec fn kept_before(mask: Seq<bool>, n: int) -> int
    decreases n,
{
    if n <= 0 {
        0
    } else {
        kept_before(mask, n - 1) + (if mask[n - 1] {
            0int
        } else {
            1
        })
    }
}

/// The items left once the masked cells are dropped; an empty mask drops none.
pub open spec fn feasible_items<T>(items: Seq<T>, mask: Seq<bool>) -> Seq<T> {
    if mask.len() == 0 {
        items
    } else {
        kept(items, mask)
    }
}

/// How many of the cells are feasible.
pub open spec fn feasible_count(mask: Seq<bool>, cells: int) -> int {
    if mask.len() == 0 {
        cells
    } else {
        kept_before(mask, cells)
    }
}

/// What stands in a cell once the items of the feasible cells are put back: nothing in
/// a masked cell.
pub open spec fn placed_item<T>(mask: Seq<bool>, items: Seq<T>, cell: int) -> Option<T> {
    if mask.len() == 0 {
        Some(items[cell])
    } else if mask[cell] {
        None
    } else {
        Some(items[kept_before(mask, cell)])
    }
}

pub proof fn kept_before_bounds(mask: Seq<bool>, n: int)
    requires
        0 <= n,
    ensures
        0 <= kept_before(mask, n) <= n,
    decreases n,
{
    if n > 0 {
        kept_before_bounds(mask, n - 1);
    }
}

proof fn kept_before_rises(mask: Seq<bool>, a: int, b: int)
    requires
        0 <= a < b,
        !mask[a],
    ensures
        kept_before(mask, a) < kept_before(mask, b),
    decreases b,
{
    if a < b - 1 {
        kept_before_rises(mask, a, b - 1);
    } else {
        kept_before_bounds(mask, a);
    }
}

/// One item is kept per cell that is not masked, the items of earlier cells first.
pub proof fn kept_places<T>(items: Seq<T>, mask: Seq<bool>)
    requires
        items.len() <= mask.len(),
    ensures
        kept(items, mask).len() == kept_before(mask, items.len() as int),
        forall|i: int|
            0 <= i < items.len() && !mask[i] ==> 0 <= kept_before(mask, i) < kept(
                items,
                mask,
            ).len() && kept(items, mask)[#[trigger] kept_before(mask, i)] == items[i],
    decreases items.len(),
{
    if items.len() > 0 {
        let front = items.drop_last();
        kept_places(front, mask);
        assert forall|i: int| 0 <= i < items.len() && !mask[i] implies 0 <= kept_before(mask, i)
            < kept(items, mask).len() && kept(items, mask)[#[trigger] kept_before(mask, i)]
            == items[i] by {
            kept_before_bounds(mask, i);
            kept_before_rises(mask, i, items.len() as int);
            if i < front.len() {
                assert(front[i] == items[i]);
                kept_before_rises(mask, i, front.len() as int);
            }
        }
    }
}

/// Every kept item is one of the items.
pub proof fn kept_from_items<T>(items: Seq<T>, mask: Seq<bool>)
    ensures
        forall|i: int|
            0 <= i < kept(items, mask).len() ==> items.contains(#[trigger] kept(items, mask)[i]),
    decreases items.len(),
{
    if items.len() > 0 {
        let front = items.drop_last();
        kept_from_items(front, mask);
        assert forall|i: int| 0 <= i < kept(items, mask).len() implies items.contains(
            #[trigger] kept(items, mask)[i],
        ) by {
            if i < kept(front, mask).len() {
                assert(front.contains(kept(front, mask)[i]));
                let j = choose|j: int| 0 <= j < front.len() && front[j] == kept(front, mask)[i];
                assert(items[j] == kept(items, mask)[i]);
            } else {
                assert(items[items.len() - 1] == kept(items, mask)[i]);
            }
        }
    }
}

/// Dropping the masked cells and putting the rest back gives every feasible cell its own
/// item, and a masked cell none.
pub proof fn feasible_cells_return<T>(items: Seq<T>, mask: Seq<bool>, cell: int)
    requires
        mask.len() == 0 || mask.len() == items.len(),
        0 <= cell < items.len(),
    ensures
        feasible_items(items, mask).len() == feasible_count(mask, items.len() as int),
        placed_item(mask, feasible_items(items, mask), cell) == (if mask.len() > 0 && mask[cell] {
            None
        } else {
            Some(items[cell])
        }),
{
    if mask.len() > 0 {
        kept_places(items, mask);
        if !mask[cell] {
            assert(kept(items, mask)[kept_before(mask, cell)] == items[cell]);
        }
    }
}

/// The number of feasible cells.
pub fn count_feasible(mask: &Vec<bool>, cells: usize) -> (r: usize)
    requires
        mask@.len() == 0 || mask@.len() == cells,
    ensures
        r == feasible_count(mask@, cells as int),
        r <= cells,
{
    if mask.len() == 0 {
        return cells;
    }
    let mut count: usize = 0;
    let mut i: usize = 0;
    while i < cells
        invariant
            i <= cells,
            mask@.len() == cells,
            count == kept_before(mask@, i as int),
            count <= i,
        decreases cells - i,
    {
        if !mask[i] {
            count += 1;
        }
        i += 1;
    }
    count
}

/// Drop the items of the masked cells; an empty mask drops none.
pub fn drop_infeasible<T>(items: Vec<T>, mask: &Vec<bool>) -> (r: Vec<T>)
    requires
        mask@.len() == 0 || mask@.len() == items@.len(),
    ensures
        r@ == feasible_items(items@, mask@),
{
    if mask.len() == 0 {
        return items;
    }
    let mut rest: Vec<T> = items;
    let mut reversed: Vec<T> = Vec::new();
    assert(kept(rest@, mask@) + reversed@.reverse() =~= kept(items@, mask@));
    while rest.len() > 0
        invariant
            rest@.len() <= mask@.len(),
            kept(rest@, mask@) + reversed@.reverse() == kept(items@, mask@),
        decreases rest@.len(),
    {
        let masked: bool = mask[rest.len() - 1];
        let ghost before = rest@;
        let ghost tail = reversed@.reverse();
        let last: Option<T> = rest.pop();
        assert(rest@ =~= before.drop_last());
        if let Some(item) = last {
            if !masked {
                reversed.push(item);
                assert(reversed@.reverse() =~= seq![item] + tail);
                assert(kept(before, mask@) + tail =~= kept(rest@, mask@) + (seq![item] + tail));
            }
        }
    }
    let mut out: Vec<T> = Vec::new();
    assert(kept(rest@, mask@) =~= Seq::<T>::empty());
    assert(out@ + reversed@.reverse() =~= kept(items@, mask@));
    while reversed.len() > 0
        invariant
            out@ + reversed@.reverse() == kept(items@, mask@),
        decreases reversed@.len(),
    {
        let ghost before = reversed@;
        let ghost head = out@;
        let last: Option<T> = reversed.pop();
        if let Some(item) = last {
            out.push(item);
            assert(before.reverse() =~= seq![item] + reversed@.reverse());
            assert(out@ + reversed@.reverse() =~= head + before.reverse());
        }
    }
    assert(reversed@.reverse() =~= Seq::<T>::empty());
    assert(out@ =~= kept(items@, mask@));
    out
}

/// Put the items of the feasible cells back in their places.
pub fn place_feasible<T: Copy>(items: &Vec<T>, mask: &Vec<bool>) -> (r: Vec<Option<T>>)
    requires
        items@.len() == feasible_count(
            mask@,
            if mask@.len() == 0 {
                items@.len() as int
            } else {
                mask@.len() as int
            },
        ),
    ensures
        r@.len() == (if mask@.len() == 0 {
            items@.len()
        } else {
            mask@.len()
        }),
        forall|i: int|
            0 <= i < r@.len() ==> #[trigger] r@[i] == placed_item(mask@, items@, i),
{
    let mut out: Vec<Option<T>> = Vec::new();
    let mut next: usize = 0;
    let mut i: usize = 0;
    if mask.len() == 0 {
        while i < items.len()
            invariant
                mask@.len() == 0,
                i <= items@.len(),
                out@.len() == i,
                forall|j: int| 0 <= j < i ==> #[trigger] out@[j] == placed_item(mask@, items@, j),
            decreases items@.len() - i,
        {
            out.push(Some(items[i]));
            i += 1;
        }
        return out;
    }
    while i < mask.len()
        invariant
            mask@.len() > 0,
            i <= mask@.len(),
            items@.len() == kept_before(mask@, mask@.len() as int),
            next == kept_before(mask@, i as int),
            out@.len() == i,
            forall|j: int| 0 <= j < i ==> #[trigger] out@[j] == placed_item(mask@, items@, j),
        decreases mask@.len() - i,
    {
        if mask[i] {
            out.push(None);
        } else {
            proof {
                kept_before_rises(mask@, i as int, mask@.len() as int);
            }
            assert(next < items.len());
            out.push(Some(items[next]));
            next += 1;
        }
        i += 1;
    }
    out
}

} // verus!
