//! Laying a cost tree out flat.
//!
//! The nodes of a tree go into one list. A composite node names its direct children by
//! a contiguous range of places, and those places come after its own, so that a list can
//! be evaluated from its end to its start. Labels take no place: the node they stand on
//! goes where they would have gone, and the label is kept beside it.

use crate::cost_tree::{facts, slots_wf, CostNode, CostTree, LeafDesc};
use vstd::prelude::*;

verus! {

/// A range of places.
#[derive(Clone, Copy, Debug, PartialEq, Eq, Structural)]
pub struct Span {
    pub start: usize,
    pub end: usize,
}

impl Span {
    pub fn len(&self) -> (r: usize)
        requires
            self.start <= self.end,
        ensures
            r == self.end - self.start,
    {
        self.end - self.start
    }
}

/// A node of the flat form.
#[derive(Clone, Copy, Debug, PartialEq, Eq, Structural)]
pub enum FlatCostNode {
    Leaf(usize),
    Sum { children: Span },
    Max { children: Span },
    Scale { n: u32, children: Span },
}

/// A tree on its way to the flat form: the places so far, what was known to go to each of
/// them, the label kept beside each, and the nodes that wait to be written, each with its
/// place.
pub struct Layout {
    pub nodes: Seq<Option<FlatCostNode>>,
    pub labels: Seq<Option<Seq<char>>>,
    pub origin: Seq<CostNode>,
    pub waiting: Seq<(CostNode, int)>,
}

/// The root waits for the first place.
pub open spec fn initial(root: CostNode) -> Layout {
    Layout {
        nodes: seq![None],
        labels: seq![None],
        origin: seq![root],
        waiting: seq![(root, 0int)],
    }
}

/// Several nodes waiting for the places from `start` on.
pub open spec fn lined_up(children: Seq<CostNode>, start: int) -> Seq<(CostNode, int)> {
    Seq::new(children.len(), |i: int| (children[i], start + i))
}

/// Write `op` at `place` and reserve places at the end for its children, who join the
/// end of the queue.
pub open spec fn branch(
    l: Layout,
    place: int,
    children: Seq<CostNode>,
    op: FlatCostNode,
) -> Layout {
    let n = children.len();
    Layout {
        nodes: l.nodes.update(place, Some(op)) + Seq::new(n, |i: int| None),
        labels: l.labels + Seq::new(n, |i: int| None),
        origin: l.origin + children,
        waiting: l.waiting.drop_first() + lined_up(children, l.nodes.len() as int),
    }
}

/// The places that the next `count` children get.
pub open spec fn next_span(l: Layout, count: nat) -> Span {
    Span { start: l.nodes.len() as usize, end: (l.nodes.len() + count) as usize }
}

/// Write the first waiting node.
pub open spec fn step(l: Layout) -> Layout {
    let (node, place) = l.waiting[0];
    match node {
        CostNode::Leaf(slot) => Layout {
            nodes: l.nodes.update(place, Some(FlatCostNode::Leaf(slot))),
            waiting: l.waiting.drop_first(),
            ..l
        },
        CostNode::Sum(children) => branch(
            l,
            place,
            children@,
            FlatCostNode::Sum { children: next_span(l, children@.len()) },
        ),
        CostNode::Max { children } => branch(
            l,
            place,
            children@,
            FlatCostNode::Max { children: next_span(l, children@.len()) },
        ),
        CostNode::Scale { n, child } => branch(
            l,
            place,
            seq![*child],
            FlatCostNode::Scale { n, children: next_span(l, 1) },
        ),
        CostNode::Labeled { label, child } => Layout {
            labels: if l.labels[place] is None {
                l.labels.update(place, Some(label@))
            } else {
                l.labels
            },
            waiting: l.waiting.drop_first().push((*child, place)),
            ..l
        },
    }
}

/// The layout after `count` steps.
pub open spec fn after(root: CostNode, count: nat) -> Layout
    decreases count,
{
    if count == 0 {
        initial(root)
    } else {
        step(after(root, (count - 1) as nat))
    }
}

/// How many nodes a tree has, labels among them.
pub open spec fn node_count(node: CostNode) -> nat
    decreases node, 0int,
{
    match node {
        CostNode::Leaf(slot) => 1,
        CostNode::Sum(children) => 1 + count_of(children@, children@.len() as int),
        CostNode::Max { children } => 1 + count_of(children@, children@.len() as int),
        CostNode::Scale { n, child } => 1 + node_count(*child),
        CostNode::Labeled { label, child } => 1 + node_count(*child),
    }
}

pub open spec fn count_of(nodes: Seq<CostNode>, count: int) -> nat
    decreases nodes, count,
{
    if count <= 0 || count > nodes.len() {
        0
    } else {
        count_of(nodes, count - 1) + node_count(nodes[count - 1])
    }
}

/// How many nodes a tree has without its labels.
pub open spec fn op_count(node: CostNode) -> nat
    decreases node, 0int,
{
    match node {
        CostNode::Leaf(slot) => 1,
        CostNode::Sum(children) => 1 + ops_of(children@, children@.len() as int),
        CostNode::Max { children } => 1 + ops_of(children@, children@.len() as int),
        CostNode::Scale { n, child } => 1 + op_count(*child),
        CostNode::Labeled { label, child } => op_count(*child),
    }
}

pub open spec fn ops_of(nodes: Seq<CostNode>, count: int) -> nat
    decreases nodes, count,
{
    if count <= 0 || count > nodes.len() {
        0
    } else {
        ops_of(nodes, count - 1) + op_count(nodes[count - 1])
    }
}

/// The complete layout of a tree.
pub open spec fn finished(root: CostNode) -> Layout {
    after(root, node_count(root))
}

/// The flat form of a tree.
pub open spec fn flat_form(root: CostNode) -> Seq<FlatCostNode> {
    finished(root).nodes.map_values(|node: Option<FlatCostNode>| node->0)
}

/// The label kept beside each place of the flat form.
pub open spec fn flat_labels(root: CostNode) -> Seq<Option<Seq<char>>> {
    finished(root).labels
}

/// Which subtree each place of the flat form stands for.
pub open spec fn flat_origin(root: CostNode) -> Seq<CostNode> {
    finished(root).origin
}

/// A node without the labels on it.
pub open spec fn unlabeled(node: CostNode) -> CostNode
    decreases node,
{
    match node {
        CostNode::Labeled { label, child } => unlabeled(*child),
        _ => node,
    }
}

/// The outermost label on a node.
pub open spec fn outer_label(node: CostNode) -> Option<Seq<char>> {
    match node {
        CostNode::Labeled { label, child } => Some(label@),
        _ => None,
    }
}

/// Whether a range behind `place` stands for these children, in order.
pub open spec fn span_holds(
    span: Span,
    place: int,
    children: Seq<CostNode>,
    origin: Seq<CostNode>,
) -> bool {
    &&& place < span.start <= span.end <= origin.len()
    &&& span.end - span.start == children.len()
    &&& forall|i: int|
        0 <= i < children.len() ==> origin[#[trigger] (span.start + i)] == children[i]
}

/// Whether a flat node at `place` stands for a tree node without labels.
pub open spec fn stands_for(
    flat: FlatCostNode,
    place: int,
    node: CostNode,
    origin: Seq<CostNode>,
) -> bool {
    match (flat, node) {
        (FlatCostNode::Leaf(a), CostNode::Leaf(b)) => a == b,
        (FlatCostNode::Sum { children: span }, CostNode::Sum(children)) => span_holds(
            span,
            place,
            children@,
            origin,
        ),
        (FlatCostNode::Max { children: span }, CostNode::Max { children }) => span_holds(
            span,
            place,
            children@,
            origin,
        ),
        (
            FlatCostNode::Scale { n: a, children: span },
            CostNode::Scale { n: b, child },
        ) => a == b && span_holds(span, place, seq![*child], origin),
        _ => false,
    }
}

/// Weight of the waiting nodes in steps still to take.
pub open spec fn steps_left(waiting: Seq<(CostNode, int)>) -> nat
    decreases waiting.len(),
{
    if waiting.len() == 0 {
        0
    } else {
        steps_left(waiting.drop_last()) + node_count(waiting.last().0)
    }
}

/// Places that the waiting nodes will reserve.
pub open spec fn places_left(waiting: Seq<(CostNode, int)>) -> int
    decreases waiting.len(),
{
    if waiting.len() == 0 {
        0
    } else {
        places_left(waiting.drop_last()) + op_count(waiting.last().0) - 1
    }
}

proof fn op_count_positive(node: CostNode)
    ensures
        op_count(node) >= 1,
    decreases node,
{
    match node {
        CostNode::Labeled { label, child } => {
            op_count_positive(*child);
        },
        _ => {},
    }
}

proof fn places_left_not_negative(waiting: Seq<(CostNode, int)>)
    ensures
        places_left(waiting) >= 0,
    decreases waiting.len(),
{
    if waiting.len() > 0 {
        places_left_not_negative(waiting.drop_last());
        op_count_positive(waiting.last().0);
    }
}

/// The weights of two queues one after the other.
proof fn joined_weights(a: Seq<(CostNode, int)>, b: Seq<(CostNode, int)>)
    ensures
        steps_left(a + b) == steps_left(a) + steps_left(b),
        places_left(a + b) == places_left(a) + places_left(b),
    decreases b.len(),
{
    if b.len() == 0 {
        assert(a + b =~= a);
    } else {
        joined_weights(a, b.drop_last());
        assert((a + b).drop_last() =~= a + b.drop_last());
    }
}

proof fn lined_up_weights(children: Seq<CostNode>, start: int, count: int)
    requires
        0 <= count <= children.len(),
    ensures
        steps_left(lined_up(children, start).take(count)) == count_of(children, count),
        places_left(lined_up(children, start).take(count)) == ops_of(children, count) - count,
    decreases count,
{
    let all = lined_up(children, start);
    if count == 0 {
        assert(all.take(0) =~= Seq::<(CostNode, int)>::empty());
    } else {
        lined_up_weights(children, start, count - 1);
        assert(all.take(count).drop_last() =~= all.take(count - 1));
        assert(all.take(count).last() == all[count - 1]);
    }
}

proof fn first_weight(waiting: Seq<(CostNode, int)>)
    requires
        waiting.len() > 0,
    ensures
        steps_left(waiting) == node_count(waiting[0].0) + steps_left(waiting.drop_first()),
        places_left(waiting) == op_count(waiting[0].0) - 1 + places_left(waiting.drop_first()),
{
    let one = seq![waiting[0]];
    assert(waiting =~= one + waiting.drop_first());
    joined_weights(one, waiting.drop_first());
    assert(one.drop_last() =~= Seq::<(CostNode, int)>::empty());
    reveal_with_fuel(steps_left, 2);
    reveal_with_fuel(places_left, 2);
}

/// A step takes one step's weight off the queue, and reserves as many places as it takes
/// off those to come.
proof fn step_weights(l: Layout)
    requires
        l.waiting.len() > 0,
    ensures
        steps_left(step(l).waiting) + 1 == steps_left(l.waiting),
        0 <= l.waiting[0].1 < l.nodes.len() ==> step(l).nodes.len() + places_left(step(l).waiting) == l.nodes.len() + places_left(l.waiting),
{
    first_weight(l.waiting);
    let rest = l.waiting.drop_first();
    let start = l.nodes.len() as int;
    match l.waiting[0].0 {
        CostNode::Leaf(slot) => {},
        CostNode::Sum(children) => {
            branch_weights(rest, children@, start);
        },
        CostNode::Max { children } => {
            branch_weights(rest, children@, start);
        },
        CostNode::Scale { n, child } => {
            branch_weights(rest, seq![*child], start);
            reveal_with_fuel(count_of, 2);
            reveal_with_fuel(ops_of, 2);
        },
        CostNode::Labeled { label, child } => {
            let back = rest.push((*child, l.waiting[0].1));
            assert(back.drop_last() =~= rest);
        },
    }
}

proof fn branch_weights(rest: Seq<(CostNode, int)>, children: Seq<CostNode>, start: int)
    ensures
        steps_left(rest + lined_up(children, start)) == steps_left(rest) + count_of(
            children,
            children.len() as int,
        ),
        places_left(rest + lined_up(children, start)) == places_left(rest) + ops_of(
            children,
            children.len() as int,
        ) - children.len(),
{
    let n = children.len() as int;
    joined_weights(rest, lined_up(children, start));
    lined_up_weights(children, start, n);
    assert(lined_up(children, start).take(n) =~= lined_up(children, start));
}

/// A waiting node belongs to the subtree of its place, and its label is either still to
/// be kept or kept already.
pub open spec fn waits_rightly(l: Layout, w: (CostNode, int)) -> bool {
    let (node, place) = w;
    &&& 0 <= place < l.nodes.len()
    &&& l.nodes[place] is None
    &&& unlabeled(node) == unlabeled(l.origin[place])
    &&& (node == l.origin[place] && l.labels[place] is None || (l.labels[place] is Some
        && l.labels[place] == outer_label(l.origin[place])))
}

/// What every layout on the way keeps.
pub open spec fn sound(l: Layout) -> bool {
    &&& l.nodes.len() == l.labels.len()
    &&& l.nodes.len() == l.origin.len()
    &&& forall|w: int| 0 <= w < l.waiting.len() ==> waits_rightly(l, #[trigger] l.waiting[w])
    &&& forall|v: int, w: int|
        0 <= v < w < l.waiting.len() ==> (#[trigger] l.waiting[v]).1 != (#[trigger] l.waiting[w]).1
    &&& forall|p: int|
        0 <= p < l.nodes.len() && (#[trigger] l.nodes[p]) is None ==> awaited(l.waiting, p)
    &&& forall|p: int|
        0 <= p < l.nodes.len() && (#[trigger] l.nodes[p]) is Some ==> stands_for(
            l.nodes[p]->0,
            p,
            unlabeled(l.origin[p]),
            l.origin,
        ) && l.labels[p] == outer_label(l.origin[p])
}

/// Some waiting node will be written at `place`.
pub open spec fn awaited(waiting: Seq<(CostNode, int)>, place: int) -> bool {
    exists|w: int| 0 <= w < waiting.len() && (#[trigger] waiting[w]).1 == place
}

proof fn awaited_later(
    before: Seq<(CostNode, int)>,
    more: Seq<(CostNode, int)>,
    place: int,
)
    requires
        before.len() > 0,
        awaited(before, place),
        before[0].1 != place,
    ensures
        awaited(before.drop_first() + more, place),
{
    let w = choose|w: int| 0 <= w < before.len() && (#[trigger] before[w]).1 == place;
    assert((before.drop_first() + more)[w - 1].1 == place);
}

proof fn step_keeps_branch(l: Layout, children: Seq<CostNode>, op: FlatCostNode)
    requires
        sound(l),
        l.waiting.len() > 0,
        l.nodes.len() + children.len() <= usize::MAX,
        l.waiting[0].0 !is Labeled,
        stands_for(op, l.waiting[0].1, l.waiting[0].0, l.origin + children),
    ensures
        sound(branch(l, l.waiting[0].1, children, op)),
{
    let (node, place) = l.waiting[0];
    let r = branch(l, place, children, op);
    let start = l.nodes.len() as int;
    assert(waits_rightly(l, l.waiting[0]));
    assert forall|w: int| 0 <= w < r.waiting.len() implies waits_rightly(
        r,
        #[trigger] r.waiting[w],
    ) by {
        if w < l.waiting.len() - 1 {
            assert(r.waiting[w] == l.waiting[w + 1]);
            assert(waits_rightly(l, l.waiting[w + 1]));
            assert(l.waiting[0].1 != l.waiting[w + 1].1);
        }
    }
    assert forall|v: int, w: int| 0 <= v < w < r.waiting.len() implies (#[trigger] r.waiting[v]).1
        != (#[trigger] r.waiting[w]).1 by {
        if w < l.waiting.len() - 1 {
            assert(l.waiting[v + 1].1 != l.waiting[w + 1].1);
        } else if v < l.waiting.len() - 1 {
            assert(waits_rightly(l, l.waiting[v + 1]));
        }
    }
    assert forall|p: int| 0 <= p < r.nodes.len() && (#[trigger] r.nodes[p]) is None implies awaited(
        r.waiting,
        p,
    ) by {
        if p < start {
            assert(l.nodes[p] is None);
            awaited_later(l.waiting, lined_up(children, start), p);
        } else {
            assert(r.waiting[l.waiting.len() - 1 + (p - start)].1 == p);
        }
    }
    assert forall|p: int| 0 <= p < r.nodes.len() && (#[trigger] r.nodes[p]) is Some implies stands_for(
        r.nodes[p]->0,
        p,
        unlabeled(r.origin[p]),
        r.origin,
    ) && r.labels[p] == outer_label(r.origin[p]) by {
        if p != place {
            assert(l.nodes[p] is Some);
            still_stands(l.nodes[p]->0, p, unlabeled(l.origin[p]), l.origin, children);
        }
    }
}

/// What a flat node stands for does not change when more places are added.
proof fn still_stands(
    flat: FlatCostNode,
    place: int,
    node: CostNode,
    origin: Seq<CostNode>,
    more: Seq<CostNode>,
)
    requires
        stands_for(flat, place, node, origin),
    ensures
        stands_for(flat, place, node, origin + more),
{
}

/// Every step keeps a layout sound.
proof fn step_keeps(l: Layout)
    requires
        sound(l),
        l.waiting.len() > 0,
        step(l).nodes.len() <= usize::MAX,
    ensures
        sound(step(l)),
{
    let (node, place) = l.waiting[0];
    assert(waits_rightly(l, l.waiting[0]));
    let r = step(l);
    match node {
        CostNode::Leaf(slot) => {
            step_keeps_branch(l, seq![], FlatCostNode::Leaf(slot));
            let b = branch(l, place, seq![], FlatCostNode::Leaf(slot));
            assert(b.nodes =~= r.nodes);
            assert(b.labels =~= r.labels);
            assert(b.origin =~= r.origin);
            assert(b.waiting =~= r.waiting);
        },
        CostNode::Sum(children) => {
            step_keeps_branch(
                l,
                children@,
                FlatCostNode::Sum { children: next_span(l, children@.len()) },
            );
        },
        CostNode::Max { children } => {
            step_keeps_branch(
                l,
                children@,
                FlatCostNode::Max { children: next_span(l, children@.len()) },
            );
        },
        CostNode::Scale { n, child } => {
            step_keeps_branch(
                l,
                seq![*child],
                FlatCostNode::Scale { n, children: next_span(l, 1) },
            );
        },
        CostNode::Labeled { label, child } => {
            let moved = (*child, place);
            assert forall|w: int| 0 <= w < r.waiting.len() implies waits_rightly(
                r,
                #[trigger] r.waiting[w],
            ) by {
                if w < l.waiting.len() - 1 {
                    assert(r.waiting[w] == l.waiting[w + 1]);
                    assert(waits_rightly(l, l.waiting[w + 1]));
                    assert(l.waiting[0].1 != l.waiting[w + 1].1);
                } else {
                    assert(r.waiting[w] == moved);
                }
            }
            assert forall|v: int, w: int|
                0 <= v < w < r.waiting.len() implies (#[trigger] r.waiting[v]).1
                != (#[trigger] r.waiting[w]).1 by {
                if w < l.waiting.len() - 1 {
                    assert(l.waiting[v + 1].1 != l.waiting[w + 1].1);
                } else {
                    assert(l.waiting[0].1 != l.waiting[v + 1].1);
                }
            }
            assert forall|p: int|
                0 <= p < r.nodes.len() && (#[trigger] r.nodes[p]) is None implies awaited(
                r.waiting,
                p,
            ) by {
                assert(l.nodes[p] is None);
                if p == place {
                    assert(r.waiting[l.waiting.len() - 1].1 == p);
                } else {
                    awaited_later(l.waiting, seq![moved], p);
                    assert(l.waiting.drop_first() + seq![moved] =~= r.waiting);
                }
            }
            assert forall|p: int|
                0 <= p < r.nodes.len() && (#[trigger] r.nodes[p]) is Some implies stands_for(
                r.nodes[p]->0,
                p,
                unlabeled(r.origin[p]),
                r.origin,
            ) && r.labels[p] == outer_label(r.origin[p]) by {
                assert(l.nodes[p] is Some);
            }
        },
    }
}

/// On the way to the complete layout: soundness, and what is still to come.
proof fn layout_after(root: CostNode, count: nat)
    requires
        count <= node_count(root),
        op_count(root) <= usize::MAX,
    ensures
        sound(after(root, count)),
        after(root, count).origin.len() > 0,
        after(root, count).origin[0] == root,
        steps_left(after(root, count).waiting) + count == node_count(root),
        after(root, count).nodes.len() + places_left(after(root, count).waiting) == op_count(root),
    decreases count,
{
    if count == 0 {
        let l = initial(root);
        assert(l.waiting.drop_last() =~= Seq::<(CostNode, int)>::empty());
        reveal_with_fuel(steps_left, 2);
        reveal_with_fuel(places_left, 2);
        assert(waits_rightly(l, l.waiting[0]));
        assert(awaited(l.waiting, 0)) by {
            assert(l.waiting[0].1 == 0);
        }
        assert(sound(l));
    } else {
        let before = (count - 1) as nat;
        layout_after(root, before);
        let l = after(root, before);
        assert(l.waiting.len() > 0);
        assert(waits_rightly(l, l.waiting[0]));
        step_weights(l);
        places_left_not_negative(step(l).waiting);
        step_keeps(l);
        assert(step(l).origin[0] == l.origin[0]);
    }
}

/// A node waits until all steps are taken.
pub proof fn queue_not_empty(root: CostNode, count: nat)
    requires
        count < node_count(root),
        op_count(root) <= usize::MAX,
    ensures
        after(root, count).waiting.len() > 0,
{
    layout_after(root, count);
}

proof fn none_left(waiting: Seq<(CostNode, int)>)
    requires
        steps_left(waiting) == 0,
    ensures
        waiting.len() == 0,
{
    if waiting.len() > 0 {
        assert(node_count(waiting.last().0) >= 1);
    }
}

/// The flat form holds the tree: its first place is the root's, every place stands for
/// its subtree with children behind it in one range, labels are kept beside the node
/// they stood on with the outermost one winning, and there is a place for every node
/// that is not a label and no other.
pub proof fn flat_form_holds_tree(root: CostNode)
    requires
        op_count(root) <= usize::MAX,
    ensures
        flat_form(root).len() == op_count(root),
        flat_labels(root).len() == flat_form(root).len(),
        flat_origin(root).len() == flat_form(root).len(),
        flat_form(root).len() > 0,
        flat_origin(root)[0] == root,
        forall|p: int|
            0 <= p < flat_form(root).len() ==> stands_for(
                #[trigger] flat_form(root)[p],
                p,
                unlabeled(flat_origin(root)[p]),
                flat_origin(root),
            ),
        forall|p: int|
            0 <= p < flat_form(root).len() ==> #[trigger] flat_labels(root)[p] == outer_label(
                flat_origin(root)[p],
            ),
{
    let l = finished(root);
    layout_after(root, node_count(root));
    none_left(l.waiting);
    assert forall|p: int| 0 <= p < l.nodes.len() implies (#[trigger] l.nodes[p]) is Some by {
        if l.nodes[p] is None {
            assert(awaited(l.waiting, p));
        }
    }
    assert forall|p: int| 0 <= p < flat_form(root).len() implies stands_for(
        #[trigger] flat_form(root)[p],
        p,
        unlabeled(flat_origin(root)[p]),
        flat_origin(root),
    ) by {
        assert(l.nodes[p] is Some);
    }
    assert forall|p: int| 0 <= p < flat_form(root).len() implies #[trigger] flat_labels(root)[p]
        == outer_label(flat_origin(root)[p]) by {
        assert(l.nodes[p] is Some);
    }
}

/// The queue by what it holds.
pub open spec fn queue_view(queue: Seq<(&CostNode, usize)>) -> Seq<(CostNode, int)> {
    queue.map_values(|entry: (&CostNode, usize)| (*entry.0, entry.1 as int))
}

/// Labels by what they hold.
pub open spec fn labels_view(labels: Seq<Option<String>>) -> Seq<Option<Seq<char>>> {
    labels.map_values(
        |label: Option<String>|
            match label {
                Some(text) => Some(text@),
                None => None,
            },
    )
}

/// Reserve places for `children` and let them join the queue.
fn reserve<'a>(
    out: &mut Vec<Option<FlatCostNode>>,
    labels: &mut Vec<Option<String>>,
    queue: &mut Vec<(&'a CostNode, usize)>,
    children: &'a Vec<CostNode>,
) -> (r: Span)
    ensures
        r.start == old(out)@.len(),
        r.end == old(out)@.len() + children@.len(),
        final(out)@ == old(out)@ + Seq::new(children@.len(), |i: int| None),
        labels_view(final(labels)@) == labels_view(old(labels)@) + Seq::new(
            children@.len(),
            |i: int| None,
        ),
        queue_view(final(queue)@) == queue_view(old(queue)@) + lined_up(
            children@,
            old(out)@.len() as int,
        ),
        final(queue)@.len() == old(queue)@.len() + children@.len(),
        forall|i: int| 0 <= i < old(queue)@.len() ==> final(queue)@[i] == old(queue)@[i],
{
    let start: usize = out.len();
    let mut i: usize = 0;
    let ghost none: Seq<Option<FlatCostNode>> = Seq::new(0, |i: int| None);
    assert(out@ =~= old(out)@ + Seq::new(0, |i: int| None));
    assert(labels_view(labels@) =~= labels_view(old(labels)@) + Seq::new(0, |i: int| None));
    assert(queue_view(queue@) =~= queue_view(old(queue)@) + lined_up(children@, start as int).take(0));
    while i < children.len()
        invariant
            i <= children@.len(),
            start == old(out)@.len(),
            out@ == old(out)@ + Seq::new(i as nat, |i: int| None),
            labels_view(labels@) == labels_view(old(labels)@) + Seq::new(i as nat, |i: int| None),
            queue_view(queue@) == queue_view(old(queue)@) + lined_up(
                children@,
                start as int,
            ).take(i as int),
            queue@.len() == old(queue)@.len() + i,
            forall|j: int| 0 <= j < old(queue)@.len() ==> queue@[j] == old(queue)@[j],
        decreases children@.len() - i,
    {
        let place: usize = out.len();
        let ghost was_labels = labels@;
        let ghost was_queue = queue@;
        out.push(None);
        labels.push(None);
        queue.push((&children[i], place));
        i += 1;
        assert(out@ =~= old(out)@ + Seq::new(i as nat, |i: int| None));
        assert(labels_view(labels@) =~= labels_view(was_labels).push(None));
        assert(labels_view(labels@) =~= labels_view(old(labels)@) + Seq::new(
            i as nat,
            |i: int| None,
        ));
        assert(queue_view(queue@) =~= queue_view(was_queue).push(
            (children@[i - 1], place as int),
        ));
        assert(queue_view(queue@) =~= queue_view(old(queue)@) + lined_up(
            children@,
            start as int,
        ).take(i as int));
    }
    assert(lined_up(children@, start as int).take(i as int) =~= lined_up(children@, start as int));
    Span { start, end: out.len() }
}

impl CostTree {
    /// The flat form of the tree.
    pub fn flatten(&self) -> (r: Vec<FlatCostNode>)
        ensures
            r@ == flat_form(self.root),
            op_count(self.root) <= usize::MAX,
    {
        let (nodes, _) = self.flatten_labeled();
        nodes
    }

    /// The flat form of the tree and the labels kept beside it.
    pub fn flatten_labeled(&self) -> (r: (Vec<FlatCostNode>, Vec<Option<String>>))
        ensures
            r.0@ == flat_form(self.root),
            labels_view(r.1@) == flat_labels(self.root),
            op_count(self.root) <= usize::MAX,
    {
        let root: &CostNode = &self.root;
        let mut out: Vec<Option<FlatCostNode>> = vec![None];
        let mut labels: Vec<Option<String>> = vec![None];
        let mut queue: Vec<(&CostNode, usize)> = vec![(root, 0)];
        let mut head: usize = 0;
        let ghost mut count: nat = 0;
        proof {
            let l = initial(*root);
            assert(out@ =~= l.nodes);
            assert(labels_view(labels@) =~= l.labels);
            assert(queue_view(queue@).skip(0) =~= l.waiting);
            assert(l.waiting.drop_last() =~= Seq::<(CostNode, int)>::empty());
            reveal_with_fuel(steps_left, 2);
            reveal_with_fuel(places_left, 2);
        }
        while head < queue.len()
            invariant
                *root == self.root,
                head <= queue@.len(),
                count <= node_count(*root),
                steps_left(after(*root, count).waiting) + count == node_count(*root),
                out@.len() + places_left(after(*root, count).waiting) == op_count(*root),
                out@ == after(*root, count).nodes,
                labels_view(labels@) == after(*root, count).labels,
                queue_view(queue@).skip(head as int) == after(*root, count).waiting,
                out@.len() == labels@.len(),
                forall|w: int| head <= w < queue@.len() ==> (#[trigger] queue@[w]).1 < out@.len(),
            decreases steps_left(queue_view(queue@).skip(head as int)),
        {
            let (node, place) = queue[head];
            let ghost l = after(*root, count);
            let ghost was = queue@;
            proof {
                assert(l.waiting[0] == queue_view(queue@)[head as int]);
                step_weights(l);
                assert(l.waiting.drop_first() =~= queue_view(queue@).skip(head + 1));
                assert(queue@[head as int].1 < out@.len());
            }
            match node {
                CostNode::Leaf(slot) => {
                    out.set(place, Some(FlatCostNode::Leaf(*slot)));
                },
                CostNode::Sum(children) => {
                    let span: Span = reserve(&mut out, &mut labels, &mut queue, children);
                    out.set(place, Some(FlatCostNode::Sum { children: span }));
                },
                CostNode::Max { children } => {
                    let span: Span = reserve(&mut out, &mut labels, &mut queue, children);
                    out.set(place, Some(FlatCostNode::Max { children: span }));
                },
                CostNode::Scale { n, child } => {
                    let start: usize = out.len();
                    let inner: &CostNode = child;
                    let ghost was_labels = labels@;
                    out.push(None);
                    labels.push(None);
                    queue.push((inner, start));
                    let span = Span { start, end: out.len() };
                    out.set(place, Some(FlatCostNode::Scale { n: *n, children: span }));
                    assert(labels_view(labels@) =~= labels_view(was_labels).push(None));
                },
                CostNode::Labeled { label, child } => {
                    let inner: &CostNode = child;
                    let free: bool = labels[place].is_none();
                    assert(labels_view(labels@)[place as int] is None == free);
                    if free {
                        labels.set(place, Some(label.clone()));
                    }
                    queue.push((inner, place));
                },
            }
            head += 1;
            proof {
                let r = step(l);
                assert(out@ =~= r.nodes);
                assert(labels_view(labels@) =~= r.labels);
                assert forall|w: int| 0 <= w < was.len() implies queue@[w] == was[w] by {}
                assert(queue_view(queue@).skip(head as int) =~= r.waiting);
                assert(after(*root, count + 1) == r);
                assert forall|w: int| head <= w < queue@.len() implies (#[trigger] queue@[w]).1
                    < out@.len() by {
                    if w >= was.len() {
                        assert(queue_view(queue@)[w] == r.waiting[w - head]);
                    }
                }
                count = count + 1;
            }
        }
        proof {
            let l = after(*root, count);
            assert(l.waiting.len() == 0);
            assert(count == node_count(*root));
            assert(out.len() == out@.len());
            flat_form_holds_tree(*root);
            let nodes = finished(*root).nodes;
            layout_after(*root, node_count(*root));
            assert forall|p: int| 0 <= p < nodes.len() implies (#[trigger] nodes[p]) is Some by {
                if nodes[p] is None {
                    assert(awaited(l.waiting, p));
                }
            }
        }
        let mut nodes: Vec<FlatCostNode> = Vec::new();
        let mut i: usize = 0;
        while i < out.len()
            invariant
                i <= out@.len(),
                out@ == finished(self.root).nodes,
                forall|p: int| 0 <= p < out@.len() ==> (#[trigger] out@[p]) is Some,
                nodes@ == flat_form(self.root).take(i as int),
            decreases out@.len() - i,
        {
            assert(out@[i as int] is Some);
            if let Some(node) = out[i] {
                nodes.push(node);
            }
            i += 1;
            assert(nodes@ =~= flat_form(self.root).take(i as int));
        }
        assert(nodes@ =~= flat_form(self.root));
        (nodes, labels)
    }

    /// What a reader of a cost log needs: the slots, the flat form and its labels.
    pub fn manifest(&self) -> (r: CostManifest)
        requires
            slots_wf(self.slots@),
        ensures
            facts(r.slots@) == facts(self.slots@),
            slots_wf(r.slots@),
            r.nodes@ == flat_form(self.root),
            labels_view(r.node_labels@) == flat_labels(self.root),
    {
        let (nodes, node_labels) = self.flatten_labeled();
        let mut slots: Vec<LeafDesc> = Vec::new();
        let mut i: usize = 0;
        while i < self.slots.len()
            invariant
                i <= self.slots@.len(),
                slots_wf(self.slots@),
                slots_wf(slots@),
                slots@.len() == i,
                forall|j: int| 0 <= j < i ==> (#[trigger] slots@[j])@ == self.slots@[j]@,
            decreases self.slots@.len() - i,
        {
            assert(self.slots@[i as int].wf());
            slots.push(self.slots[i].copy());
            i += 1;
        }
        assert(facts(slots@) =~= facts(self.slots@));
        CostManifest { slots, nodes, node_labels }
    }
}

/// The description of a compiled tree that goes beside a cost log. A reader evaluates the
/// flat form over a row's slots to reproduce its total.
#[derive(Debug, PartialEq)]
pub struct CostManifest {
    pub slots: Vec<LeafDesc>,
    pub nodes: Vec<FlatCostNode>,
    pub node_labels: Vec<Option<String>>,
}

/// One named part of a manifest document.
#[derive(Debug, PartialEq)]
pub struct CostManifestSection {
    pub section: String,
    pub manifest: CostManifest,
}

/// The manifests of a worker, one per group of costs that it logs.
#[derive(Debug, PartialEq)]
pub struct CostManifestDoc {
    pub sections: Vec<CostManifestSection>,
}

impl CostManifestDoc {
    /// A document with one section.
    pub fn single(section: String, manifest: CostManifest) -> (r: Self)
        ensures
            r.sections@ == seq![CostManifestSection { section, manifest }],
    {
        CostManifestDoc { sections: vec![CostManifestSection { section, manifest }] }
    }

    /// A document without sections.
    pub fn empty() -> (r: Self)
        ensures
            r.sections@.len() == 0,
    {
        CostManifestDoc { sections: Vec::new() }
    }

    /// Append a section.
    pub fn push(&mut self, section: String, manifest: CostManifest)
        ensures
            final(self).sections@ == old(self).sections@.push(
                (CostManifestSection { section, manifest }),
            ),
    {
        self.sections.push(CostManifestSection { section, manifest });
    }
}

} // verus!
