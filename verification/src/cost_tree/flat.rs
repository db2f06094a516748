//! Evaluating a cost structure over the costs of its slots.

use crate::cache::interp::{CoverageFlags, LeafMetrics, Metrics4, NO_BACKEND};
use crate::cache::scalar::{ranks_below, Scalar};
use crate::cost_tree::layout::{
    after, finished, flat_form, flat_form_holds_tree, flat_origin, initial, node_count, op_count,
    span_holds, stands_for, step, unlabeled, FlatCostNode, Span,
};
use crate::cost_tree::{all_leaves_within, each_within, leaves_within, CostNode, CostTree};
use vstd::prelude::*;

verus! {

/// The sum of costs: metrics add, concerns join.
pub open spec fn total_cost<S: Scalar>(costs: Seq<LeafMetrics<S>>) -> LeafMetrics<S>
    decreases costs.len(),
{
    if costs.len() == 0 {
        LeafMetrics::nothing()
    } else {
        total_cost(costs.drop_last()).joined(costs.last())
    }
}

/// The longest of the costs' times, at least zero.
pub open spec fn longest_time<S: Scalar>(costs: Seq<LeafMetrics<S>>) -> S
    decreases costs.len(),
{
    if costs.len() == 0 {
        S::zero_value()
    } else {
        let rest = longest_time(costs.drop_last());
        if ranks_below(rest, costs.last().m.time_ms) {
            costs.last().m.time_ms
        } else {
            rest
        }
    }
}

/// The cost of running side by side: the longest time, and all of the work.
pub open spec fn side_by_side<S: Scalar>(costs: Seq<LeafMetrics<S>>) -> LeafMetrics<S> {
    let sum = total_cost(costs);
    LeafMetrics { m: Metrics4 { time_ms: longest_time(costs), ..sum.m }, ..sum }
}

/// The cost of a subtree, given the costs of the slots.
pub open spec fn node_cost<S: Scalar>(node: CostNode, buf: Seq<LeafMetrics<S>>) -> LeafMetrics<S>
    decreases node, 0int,
{
    match node {
        CostNode::Leaf(slot) => buf[slot as int],
        CostNode::Sum(children) => total_cost(
            node_costs(children@, buf, children@.len() as int),
        ),
        CostNode::Max { children } => side_by_side(
            node_costs(children@, buf, children@.len() as int),
        ),
        CostNode::Scale { n, child } => total_cost(seq![node_cost(*child, buf)]).repeated(
            S::count_value(n as u64),
        ),
        CostNode::Labeled { label, child } => node_cost(*child, buf),
    }
}

/// The costs of the first `count` of several subtrees.
pub open spec fn node_costs<S: Scalar>(
    nodes: Seq<CostNode>,
    buf: Seq<LeafMetrics<S>>,
    count: int,
) -> Seq<LeafMetrics<S>>
    decreases nodes, count,
{
    if count <= 0 || count > nodes.len() {
        seq![]
    } else {
        node_costs(nodes, buf, count - 1).push(node_cost(nodes[count - 1], buf))
    }
}

/// Whether a flat node at `place` refers to slots and later places only.
pub open spec fn refers_forward(node: FlatCostNode, place: int, places: int, slots: int) -> bool {
    match node {
        FlatCostNode::Leaf(slot) => slot < slots,
        FlatCostNode::Sum { children } => span_forward(children, place, places),
        FlatCostNode::Max { children } => span_forward(children, place, places),
        FlatCostNode::Scale { n, children } => span_forward(children, place, places),
    }
}

pub open spec fn span_forward(span: Span, place: int, places: int) -> bool {
    place < span.start <= span.end <= places
}

/// Whether a flat form can be evaluated from its end to its start.
pub open spec fn well_laid(flat: Seq<FlatCostNode>, slots: int) -> bool {
    forall|p: int|
        0 <= p < flat.len() ==> refers_forward(#[trigger] flat[p], p, flat.len() as int, slots)
}

/// Whether a flat form can be evaluated from its end to its start.
pub fn is_well_laid(flat: &Vec<FlatCostNode>, slots: usize) -> (r: bool)
    ensures
        r == well_laid(flat@, slots as int),
{
    let n: usize = flat.len();
    let mut p: usize = 0;
    while p < n
        invariant
            n == flat@.len(),
            p <= n,
            forall|q: int|
                0 <= q < p ==> refers_forward(#[trigger] flat@[q], q, n as int, slots as int),
        decreases n - p,
    {
        let ok: bool = match flat[p] {
            FlatCostNode::Leaf(slot) => slot < slots,
            FlatCostNode::Sum { children } => p < children.start && children.start <= children.end
                && children.end <= n,
            FlatCostNode::Max { children } => p < children.start && children.start <= children.end
                && children.end <= n,
            FlatCostNode::Scale { n: _, children } => p < children.start && children.start
                <= children.end && children.end <= n,
        };
        if !ok {
            assert(!refers_forward(flat@[p as int], p as int, n as int, slots as int));
            return false;
        }
        p += 1;
    }
    true
}

/// The cost of a place of a flat form, given the costs of the slots.
pub open spec fn place_cost<S: Scalar>(
    flat: Seq<FlatCostNode>,
    buf: Seq<LeafMetrics<S>>,
    place: int,
) -> LeafMetrics<S>
    decreases flat.len() - place, 0int,
{
    if !(0 <= place < flat.len()) {
        LeafMetrics::nothing()
    } else {
        match flat[place] {
            FlatCostNode::Leaf(slot) => buf[slot as int],
            FlatCostNode::Sum { children } => if place < children.start <= flat.len() {
                total_cost(span_costs(flat, buf, children.start as int, children.end as int))
            } else {
                LeafMetrics::nothing()
            },
            FlatCostNode::Max { children } => if place < children.start <= flat.len() {
                side_by_side(span_costs(flat, buf, children.start as int, children.end as int))
            } else {
                LeafMetrics::nothing()
            },
            FlatCostNode::Scale { n, children } => if place < children.start <= flat.len() {
                total_cost(
                    span_costs(flat, buf, children.start as int, children.end as int),
                ).repeated(S::count_value(n as u64))
            } else {
                LeafMetrics::nothing()
            },
        }
    }
}

/// The costs of a range of places.
pub open spec fn span_costs<S: Scalar>(
    flat: Seq<FlatCostNode>,
    buf: Seq<LeafMetrics<S>>,
    start: int,
    end: int,
) -> Seq<LeafMetrics<S>>
    decreases flat.len() - start, 1 + end - start,
{
    if !(0 <= start < end <= flat.len()) {
        seq![]
    } else {
        span_costs(flat, buf, start, end - 1).push(place_cost(flat, buf, end - 1))
    }
}

/// The cost of a flat form, given the costs of the slots.
pub open spec fn flat_cost<S: Scalar>(
    flat: Seq<FlatCostNode>,
    buf: Seq<LeafMetrics<S>>,
) -> LeafMetrics<S> {
    if flat.len() == 0 {
        LeafMetrics::nothing()
    } else {
        place_cost(flat, buf, 0)
    }
}

/// Add up the costs of a range of places; with the longest of their times.
fn add_span<S: Scalar>(
    flat: &Vec<FlatCostNode>,
    Ghost(buf): Ghost<Seq<LeafMetrics<S>>>,
    scratch: &Vec<LeafMetrics<S>>,
    span: Span,
) -> (r: (LeafMetrics<S>, S))
    requires
        scratch@.len() == flat@.len(),
        span.start <= span.end <= flat@.len(),
        forall|q: int|
            span.start <= q < flat@.len() ==> #[trigger] scratch@[q] == place_cost(flat@, buf, q),
    ensures
        r.0 == total_cost(span_costs(flat@, buf, span.start as int, span.end as int)),
        r.1 == longest_time(span_costs(flat@, buf, span.start as int, span.end as int)),
{
    let mut acc: LeafMetrics<S> = LeafMetrics::zero();
    let mut longest: S = S::zero();
    let mut c: usize = span.start;
    while c < span.end
        invariant
            span.start <= c <= span.end <= flat@.len(),
            scratch@.len() == flat@.len(),
            forall|q: int|
                span.start <= q < flat@.len() ==> #[trigger] scratch@[q] == place_cost(
                    flat@,
                    buf,
                    q,
                ),
            acc == total_cost(span_costs(flat@, buf, span.start as int, c as int)),
            longest == longest_time(span_costs(flat@, buf, span.start as int, c as int)),
        decreases span.end - c,
    {
        let cost: LeafMetrics<S> = scratch[c];
        proof {
            let costs = span_costs(flat@, buf, span.start as int, c + 1);
            assert(costs.drop_last() =~= span_costs(flat@, buf, span.start as int, c as int));
        }
        if longest.below(cost.m.time_ms) {
            longest = cost.m.time_ms;
        }
        acc.add(cost);
        c += 1;
    }
    (acc, longest)
}

impl CostTree {
    /// Evaluate a flat form over the costs of the slots, from its end to its start.
    /// `scratch` then holds the cost of every place.
    pub fn aggregate<S: Scalar>(
        flat: &Vec<FlatCostNode>,
        buf: &Vec<LeafMetrics<S>>,
        scratch: &mut Vec<LeafMetrics<S>>,
    ) -> (r: LeafMetrics<S>)
        requires
            well_laid(flat@, buf@.len() as int),
        ensures
            r == flat_cost(flat@, buf@),
            flat@.len() == 0 ==> final(scratch)@ == old(scratch)@,
            flat@.len() > 0 ==> final(scratch)@.len() == flat@.len() && forall|p: int|
                0 <= p < flat@.len() ==> #[trigger] final(scratch)@[p] == place_cost(
                    flat@,
                    buf@,
                    p,
                ),
    {
        let n: usize = flat.len();
        if n == 0 {
            return LeafMetrics::zero();
        }
        scratch.clear();
        let mut i: usize = 0;
        while i < n
            invariant
                i <= n,
                scratch@.len() == i,
            decreases n - i,
        {
            scratch.push(LeafMetrics::zero());
            i += 1;
        }
        let mut p: usize = n;
        while p > 0
            invariant
                p <= n,
                n == flat@.len(),
                scratch@.len() == n,
                well_laid(flat@, buf@.len() as int),
                forall|q: int|
                    p <= q < n ==> #[trigger] scratch@[q] == place_cost(flat@, buf@, q),
            decreases p,
        {
            p = p - 1;
            assert(refers_forward(flat@[p as int], p as int, n as int, buf@.len() as int));
            let cost: LeafMetrics<S> = match flat[p] {
                FlatCostNode::Leaf(slot) => buf[slot],
                FlatCostNode::Sum { children } => {
                    let (acc, _) = add_span(flat, Ghost(buf@), scratch, children);
                    acc
                },
                FlatCostNode::Scale { n: times, children } => {
                    let (mut acc, _) = add_span(flat, Ghost(buf@), scratch, children);
                    acc.scale(S::from_count(times as u64));
                    acc
                },
                FlatCostNode::Max { children } => {
                    let (acc, longest) = add_span(flat, Ghost(buf@), scratch, children);
                    LeafMetrics {
                        m: Metrics4 {
                            time_ms: longest,
                            flops: acc.m.flops,
                            bytes: acc.m.bytes,
                            energy_j: acc.m.energy_j,
                        },
                        coverage: acc.coverage,
                        backend_index: acc.backend_index,
                    }
                },
            };
            scratch.set(p, cost);
        }
        scratch[0]
    }
}

/// Labels cost nothing.
pub proof fn labels_cost_nothing<S: Scalar>(node: CostNode, buf: Seq<LeafMetrics<S>>)
    ensures
        node_cost(node, buf) == node_cost(unlabeled(node), buf),
    decreases node,
{
    match node {
        CostNode::Labeled { label, child } => {
            labels_cost_nothing(*child, buf);
        },
        _ => {},
    }
}

/// What runs side by side takes as long as the slowest of it: no part takes longer, and
/// some part takes that long unless none takes any time.
pub proof fn side_by_side_takes_longest<S: Scalar>(costs: Seq<LeafMetrics<S>>)
    requires
        !S::zero_value().undefined(),
        forall|i: int| 0 <= i < costs.len() ==> !(#[trigger] costs[i]).m.time_ms.undefined(),
    ensures
        !longest_time(costs).undefined(),
        !ranks_below(longest_time(costs), S::zero_value()),
        forall|i: int|
            0 <= i < costs.len() ==> !ranks_below(
                longest_time(costs),
                (#[trigger] costs[i]).m.time_ms,
            ),
        longest_time(costs) == S::zero_value() || exists|i: int|
            0 <= i < costs.len() && longest_time(costs) == (#[trigger] costs[i]).m.time_ms,
    decreases costs.len(),
{
    if costs.len() > 0 {
        let front = costs.drop_last();
        assert forall|i: int| 0 <= i < front.len() implies !(
        #[trigger] front[i]).m.time_ms.undefined() by {
            assert(!costs[i].m.time_ms.undefined());
        }
        side_by_side_takes_longest(front);
        let rest = longest_time(front);
        let last = costs.last().m.time_ms;
        assert(costs[costs.len() - 1].m.time_ms == last);
        assert forall|i: int| 0 <= i < costs.len() implies !ranks_below(
            longest_time(costs),
            (#[trigger] costs[i]).m.time_ms,
        ) by {
            if i < front.len() {
                assert(front[i] == costs[i]);
                assert(!ranks_below(rest, front[i].m.time_ms));
            }
        }
        if !ranks_below(rest, last) && rest != S::zero_value() {
            let i = choose|i: int| 0 <= i < front.len() && rest == (#[trigger] front[i]).m.time_ms;
            assert(costs[i].m.time_ms == rest);
        }
    }
}

/// A sum of costs is no backend's choice.
proof fn total_names_no_backend<S: Scalar>(costs: Seq<LeafMetrics<S>>)
    ensures
        total_cost(costs).backend_index == NO_BACKEND,
    decreases costs.len(),
{
    if costs.len() > 0 {
        total_names_no_backend(costs.drop_last());
    }
}

/// The cost of a composite names no backend: only that of a leaf does.
pub proof fn composites_name_no_backend<S: Scalar>(node: CostNode, buf: Seq<LeafMetrics<S>>)
    requires
        unlabeled(node) !is Leaf,
    ensures
        node_cost(node, buf).backend_index == NO_BACKEND,
    decreases node,
{
    match node {
        CostNode::Leaf(slot) => {},
        CostNode::Sum(children) => {
            total_names_no_backend(node_costs(children@, buf, children@.len() as int));
        },
        CostNode::Max { children } => {
            total_names_no_backend(node_costs(children@, buf, children@.len() as int));
        },
        CostNode::Scale { n, child } => {
            total_names_no_backend(seq![node_cost(*child, buf)]);
        },
        CostNode::Labeled { label, child } => {
            composites_name_no_backend(*child, buf);
        },
    }
}

/// The cost of every place of the flat form is the cost of the subtree that it stands
/// for.
proof fn place_cost_is_subtree_cost<S: Scalar>(
    root: CostNode,
    buf: Seq<LeafMetrics<S>>,
    place: int,
)
    requires
        op_count(root) <= usize::MAX,
        0 <= place < flat_form(root).len(),
    ensures
        place_cost(flat_form(root), buf, place) == node_cost(flat_origin(root)[place], buf),
    decreases flat_form(root).len() - place, 0int,
{
    flat_form_holds_tree(root);
    let flat = flat_form(root);
    let origin = flat_origin(root);
    let node = unlabeled(origin[place]);
    labels_cost_nothing(origin[place], buf);
    assert(stands_for(flat[place], place, node, origin));
    match node {
        CostNode::Leaf(slot) => {},
        CostNode::Sum(children) => {
            if let FlatCostNode::Sum { children: span } = flat[place] {
                span_cost_is_children_cost(root, buf, span, place, children@, span.end as int);
            }
        },
        CostNode::Max { children } => {
            if let FlatCostNode::Max { children: span } = flat[place] {
                span_cost_is_children_cost(root, buf, span, place, children@, span.end as int);
            }
        },
        CostNode::Scale { n, child } => {
            if let FlatCostNode::Scale { n: times, children: span } = flat[place] {
                span_cost_is_children_cost(root, buf, span, place, seq![*child], span.end as int);
                reveal_with_fuel(node_costs, 2);
                assert(node_costs(seq![*child], buf, 1) =~= seq![node_cost(*child, buf)]);
            }
        },
        CostNode::Labeled { label, child } => {},
    }
}

proof fn span_cost_is_children_cost<S: Scalar>(
    root: CostNode,
    buf: Seq<LeafMetrics<S>>,
    span: Span,
    place: int,
    children: Seq<CostNode>,
    end: int,
)
    requires
        op_count(root) <= usize::MAX,
        0 <= place < flat_form(root).len(),
        flat_origin(root).len() == flat_form(root).len(),
        span_holds(span, place, children, flat_origin(root)),
        span.start <= end <= span.end,
    ensures
        span_costs(flat_form(root), buf, span.start as int, end) == node_costs(
            children,
            buf,
            end - span.start,
        ),
    decreases flat_form(root).len() - span.start, 1 + end - span.start,
{
    if end > span.start {
        span_cost_is_children_cost(root, buf, span, place, children, end - 1);
        place_cost_is_subtree_cost(root, buf, end - 1);
        assert(flat_origin(root)[span.start + (end - 1 - span.start)] == children[end - 1
            - span.start]);
    }
}

/// Evaluating the flat form of a tree gives the cost of the tree.
pub proof fn flat_form_costs_the_tree<S: Scalar>(root: CostNode, buf: Seq<LeafMetrics<S>>)
    requires
        op_count(root) <= usize::MAX,
    ensures
        flat_cost(flat_form(root), buf) == node_cost(root, buf),
{
    flat_form_holds_tree(root);
    place_cost_is_subtree_cost(root, buf, 0);
}

/// On the way to the flat form, every subtree has its leaves' slots in range.
proof fn subtrees_within(root: CostNode, slots: int, count: nat)
    requires
        leaves_within(root, slots),
        count <= node_count(root),
        op_count(root) <= usize::MAX,
    ensures
        forall|p: int|
            0 <= p < after(root, count).origin.len() ==> leaves_within(
                #[trigger] after(root, count).origin[p],
                slots,
            ),
        forall|w: int|
            0 <= w < after(root, count).waiting.len() ==> leaves_within(
                (#[trigger] after(root, count).waiting[w]).0,
                slots,
            ),
    decreases count,
{
    if count == 0 {
        assert(initial(root).waiting[0].0 == root);
    } else {
        let before = (count - 1) as nat;
        subtrees_within(root, slots, before);
        crate::cost_tree::layout::queue_not_empty(root, before);
        let l = after(root, before);
        let r = step(l);
        let (node, place) = l.waiting[0];
        assert(leaves_within(l.waiting[0].0, slots));
        let children: Seq<CostNode> = match node {
            CostNode::Sum(children) => children@,
            CostNode::Max { children } => children@,
            CostNode::Scale { n, child } => seq![*child],
            _ => seq![],
        };
        assert forall|i: int| 0 <= i < children.len() implies leaves_within(
            #[trigger] children[i],
            slots,
        ) by {
            match node {
                CostNode::Sum(nodes) => {
                    each_within(nodes@, slots, nodes@.len() as int, i);
                },
                CostNode::Max { children: nodes } => {
                    each_within(nodes@, slots, nodes@.len() as int, i);
                },
                _ => {},
            }
        }
        assert forall|p: int| 0 <= p < r.origin.len() implies leaves_within(
            #[trigger] r.origin[p],
            slots,
        ) by {
            if p < l.origin.len() {
                assert(r.origin[p] == l.origin[p]);
            } else {
                assert(r.origin[p] == children[p - l.origin.len()]);
            }
        }
        assert forall|w: int| 0 <= w < r.waiting.len() implies leaves_within(
            (#[trigger] r.waiting[w]).0,
            slots,
        ) by {
            if w < l.waiting.len() - 1 {
                assert(r.waiting[w] == l.waiting[w + 1]);
            } else if node is Labeled {
            } else {
                assert(r.waiting[w].0 == children[w - (l.waiting.len() - 1)]);
            }
        }
    }
}

/// The flat form of a tree whose leaves have slots can be evaluated.
pub proof fn flat_form_is_well_laid(root: CostNode, slots: int)
    requires
        leaves_within(root, slots),
        op_count(root) <= usize::MAX,
    ensures
        well_laid(flat_form(root), slots),
{
    flat_form_holds_tree(root);
    subtrees_within(root, slots, node_count(root));
    let flat = flat_form(root);
    let origin = flat_origin(root);
    assert forall|p: int| 0 <= p < flat.len() implies refers_forward(
        #[trigger] flat[p],
        p,
        flat.len() as int,
        slots,
    ) by {
        assert(stands_for(flat[p], p, unlabeled(origin[p]), origin));
        assert(leaves_within(finished(root).origin[p], slots));
        unlabeled_within(origin[p], slots);
    }
}

proof fn unlabeled_within(node: CostNode, slots: int)
    requires
        leaves_within(node, slots),
    ensures
        leaves_within(unlabeled(node), slots),
    decreases node,
{
    match node {
        CostNode::Labeled { label, child } => {
            unlabeled_within(*child, slots);
        },
        _ => {},
    }
}

/// Whether a slot's leaf is under a node.
pub open spec fn has_leaf(node: CostNode, slot: int) -> bool
    decreases node, 0int,
{
    match node {
        CostNode::Leaf(s) => s == slot,
        CostNode::Sum(children) => any_has_leaf(children@, slot, children@.len() as int),
        CostNode::Max { children } => any_has_leaf(children@, slot, children@.len() as int),
        CostNode::Scale { n, child } => has_leaf(*child, slot),
        CostNode::Labeled { label, child } => has_leaf(*child, slot),
    }
}

pub open spec fn any_has_leaf(nodes: Seq<CostNode>, slot: int, count: int) -> bool
    decreases nodes, count,
{
    if count <= 0 || count > nodes.len() {
        false
    } else {
        any_has_leaf(nodes, slot, count - 1) || has_leaf(nodes[count - 1], slot)
    }
}

/// A sum has every concern of its parts.
proof fn sum_has_concerns<S: Scalar>(costs: Seq<LeafMetrics<S>>, i: int, flags: CoverageFlags)
    requires
        0 <= i < costs.len(),
        costs[i].coverage.includes(flags),
    ensures
        total_cost(costs).coverage.includes(flags),
    decreases costs.len(),
{
    let rest = total_cost(costs.drop_last()).coverage;
    let last = costs.last().coverage;
    CoverageFlags::union_laws(rest, last, flags);
    if i < costs.len() - 1 {
        sum_has_concerns(costs.drop_last(), i, flags);
        CoverageFlags::inclusion_carries(rest.union(last), rest, flags);
    } else {
        CoverageFlags::inclusion_carries(rest.union(last), last, flags);
    }
}

/// A concern of any leaf surfaces at the root.
pub proof fn concerns_reach_root<S: Scalar>(
    node: CostNode,
    buf: Seq<LeafMetrics<S>>,
    slot: int,
    flags: CoverageFlags,
)
    requires
        has_leaf(node, slot),
        0 <= slot < buf.len(),
        buf[slot].coverage.includes(flags),
    ensures
        node_cost(node, buf).coverage.includes(flags),
    decreases node, 0int,
{
    match node {
        CostNode::Leaf(s) => {},
        CostNode::Sum(children) => {
            concerns_reach_children(children@, buf, slot, flags, children@.len() as int);
        },
        CostNode::Max { children } => {
            concerns_reach_children(children@, buf, slot, flags, children@.len() as int);
        },
        CostNode::Scale { n, child } => {
            concerns_reach_root(*child, buf, slot, flags);
            sum_has_concerns(seq![node_cost(*child, buf)], 0, flags);
        },
        CostNode::Labeled { label, child } => {
            concerns_reach_root(*child, buf, slot, flags);
        },
    }
}

proof fn concerns_reach_children<S: Scalar>(
    nodes: Seq<CostNode>,
    buf: Seq<LeafMetrics<S>>,
    slot: int,
    flags: CoverageFlags,
    count: int,
)
    requires
        any_has_leaf(nodes, slot, count),
        0 <= slot < buf.len(),
        buf[slot].coverage.includes(flags),
        0 <= count <= nodes.len(),
    ensures
        total_cost(node_costs(nodes, buf, count)).coverage.includes(flags),
        count > 0,
    decreases nodes, count,
{
    let costs = node_costs(nodes, buf, count);
    assert(costs.drop_last() =~= node_costs(nodes, buf, count - 1));
    if has_leaf(nodes[count - 1], slot) {
        concerns_reach_root(nodes[count - 1], buf, slot, flags);
        sum_has_concerns(costs, costs.len() - 1, flags);
    } else {
        concerns_reach_children(nodes, buf, slot, flags, count - 1);
        let rest = total_cost(costs.drop_last()).coverage;
        CoverageFlags::union_laws(rest, costs.last().coverage, flags);
        CoverageFlags::inclusion_carries(rest.union(costs.last().coverage), rest, flags);
    }
}

/// Without a concern at any slot there is none at the root.
pub proof fn no_concern_from_nowhere<S: Scalar>(node: CostNode, buf: Seq<LeafMetrics<S>>)
    requires
        leaves_within(node, buf.len() as int),
        forall|i: int| 0 <= i < buf.len() ==> (#[trigger] buf[i]).coverage == CoverageFlags::clear(),
    ensures
        node_cost(node, buf).coverage == CoverageFlags::clear(),
    decreases node, 0int,
{
    CoverageFlags::clear_is_neutral(CoverageFlags::clear());
    match node {
        CostNode::Leaf(s) => {},
        CostNode::Sum(children) => {
            no_concern_from_children(children@, buf, children@.len() as int);
        },
        CostNode::Max { children } => {
            no_concern_from_children(children@, buf, children@.len() as int);
        },
        CostNode::Scale { n, child } => {
            no_concern_from_nowhere(*child, buf);
            let costs = seq![node_cost(*child, buf)];
            assert(costs.drop_last() =~= Seq::<LeafMetrics<S>>::empty());
            reveal_with_fuel(total_cost, 2);
        },
        CostNode::Labeled { label, child } => {
            no_concern_from_nowhere(*child, buf);
        },
    }
}

proof fn no_concern_from_children<S: Scalar>(
    nodes: Seq<CostNode>,
    buf: Seq<LeafMetrics<S>>,
    count: int,
)
    requires
        all_leaves_within(nodes, buf.len() as int, count),
        0 <= count <= nodes.len(),
        forall|i: int| 0 <= i < buf.len() ==> (#[trigger] buf[i]).coverage == CoverageFlags::clear(),
    ensures
        total_cost(node_costs(nodes, buf, count)).coverage == CoverageFlags::clear(),
    decreases nodes, count,
{
    CoverageFlags::clear_is_neutral(CoverageFlags::clear());
    if count > 0 {
        no_concern_from_children(nodes, buf, count - 1);
        no_concern_from_nowhere(nodes[count - 1], buf);
        let costs = node_costs(nodes, buf, count);
        assert(costs.drop_last() =~= node_costs(nodes, buf, count - 1));
    }
}

/// Fills the costs of the slots in the order in which leaves are visited, and records
/// each leaf's input where that is wanted.
#[derive(Debug)]
pub struct Evaluator<S, I> {
    buf: Vec<LeafMetrics<S>>,
    cursor: usize,
    inputs: Option<Vec<I>>,
}

impl<S: Scalar, I> Evaluator<S, I> {
    pub closed spec fn costs(&self) -> Seq<LeafMetrics<S>> {
        self.buf@
    }

    pub closed spec fn at(&self) -> nat {
        self.cursor as nat
    }

    /// The recorded inputs, if inputs are recorded.
    pub closed spec fn recorded(&self) -> Option<Seq<I>> {
        match self.inputs {
            Some(inputs) => Some(inputs@),
            None => None,
        }
    }

    pub closed spec fn wf(&self) -> bool {
        self.cursor <= self.buf@.len()
    }

    /// Fill a buffer without recording inputs.
    pub fn new(buf: Vec<LeafMetrics<S>>) -> (r: Self)
        ensures
            r.wf(),
            r.costs() == buf@,
            r.at() == 0,
            r.recorded() is None,
    {
        Evaluator { buf, cursor: 0, inputs: None }
    }

    /// Fill a buffer and record inputs.
    pub fn with_inputs(buf: Vec<LeafMetrics<S>>) -> (r: Self)
        ensures
            r.wf(),
            r.costs() == buf@,
            r.at() == 0,
            r.recorded() == Some(Seq::<I>::empty()),
    {
        let inputs: Vec<I> = Vec::new();
        assert(inputs@ =~= Seq::<I>::empty());
        Evaluator { buf, cursor: 0, inputs: Some(inputs) }
    }

    /// Write the next leaf's cost into its slot. Its input is made only where inputs are
    /// recorded.
    pub fn push<F: FnOnce() -> I>(&mut self, metrics: LeafMetrics<S>, make_input: F)
        requires
            old(self).wf(),
            old(self).at() < old(self).costs().len(),
            make_input.requires(()),
        ensures
            final(self).wf(),
            final(self).costs() == old(self).costs().update(old(self).at() as int, metrics),
            final(self).at() == old(self).at() + 1,
            match old(self).recorded() {
                Some(inputs) => exists|input: I|
                    make_input.ensures((), input) && final(self).recorded() == Some(
                        #[trigger] inputs.push(input),
                    ),
                None => final(self).recorded() is None,
            },
    {
        let ghost before = self.recorded();
        assert(self.cursor < self.buf.len());
        self.buf.set(self.cursor, metrics);
        self.cursor = self.cursor + 1;
        let recorded: Option<Vec<I>> = self.inputs.take();
        if let Some(mut inputs) = recorded {
            let input: I = make_input();
            inputs.push(input);
            assert(inputs@ == before->0.push(input));
            self.inputs = Some(inputs);
        }
    }

    /// How many slots are filled.
    pub fn filled(&self) -> (r: usize)
        ensures
            r == self.at(),
    {
        self.cursor
    }

    /// The costs of the slots and the recorded inputs.
    pub fn finish(self) -> (r: (Vec<LeafMetrics<S>>, Option<Vec<I>>))
        ensures
            r.0@ == self.costs(),
            match r.1 {
                Some(inputs) => self.recorded() == Some(inputs@),
                None => self.recorded() is None,
            },
    {
        (self.buf, self.inputs)
    }
}

} // verus!
