//! What a cost structure adds up to in plain arithmetic.

use crate::cache::exact::{fits, joining_adds, repeating_multiplies, steps_of};
use crate::cache::interp::{CoverageFlags, LeafMetrics, NO_BACKEND};
use crate::cache::scalar::{Fixed, Scalar};
use crate::cache::slopes::Metric;
use crate::cost_tree::flat::{longest_time, node_cost, node_costs, total_cost};
use crate::cost_tree::{all_leaves_within, leaves_within, CostNode};
use vstd::prelude::*;

verus! {

/// Whether no cost of the slots is negative in a metric.
pub open spec fn none_negative(costs: Seq<LeafMetrics<Fixed>>, metric: Metric) -> bool {
    forall|i: int| 0 <= i < costs.len() ==> steps_of((#[trigger] costs[i]).m, metric) >= 0
}

/// What a subtree adds up to in one metric: parts add, a repeated part counts as often as
/// it is repeated, and of parts that run side by side the longest time counts.
pub open spec fn plain_cost(node: CostNode, buf: Seq<LeafMetrics<Fixed>>, metric: Metric) -> int
    decreases node, 0int,
{
    match node {
        CostNode::Leaf(slot) => steps_of(buf[slot as int].m, metric),
        CostNode::Sum(children) => plain_sum(children@, buf, metric, children@.len() as int),
        CostNode::Max { children } => if metric == Metric::Time {
            plain_longest(children@, buf, children@.len() as int)
        } else {
            plain_sum(children@, buf, metric, children@.len() as int)
        },
        CostNode::Scale { n, child } => n * plain_cost(*child, buf, metric),
        CostNode::Labeled { label, child } => plain_cost(*child, buf, metric),
    }
}

/// What the first `count` of several subtrees add up to.
pub open spec fn plain_sum(
    nodes: Seq<CostNode>,
    buf: Seq<LeafMetrics<Fixed>>,
    metric: Metric,
    count: int,
) -> int
    decreases nodes, count,
{
    if count <= 0 || count > nodes.len() {
        0
    } else {
        plain_sum(nodes, buf, metric, count - 1) + plain_cost(nodes[count - 1], buf, metric)
    }
}

/// The longest time among the first `count` of several subtrees, at least zero.
pub open spec fn plain_longest(
    nodes: Seq<CostNode>,
    buf: Seq<LeafMetrics<Fixed>>,
    count: int,
) -> int
    decreases nodes, count,
{
    if count <= 0 || count > nodes.len() {
        0
    } else {
        let rest = plain_longest(nodes, buf, count - 1);
        let last = plain_cost(nodes[count - 1], buf, Metric::Time);
        if rest < last {
            last
        } else {
            rest
        }
    }
}

proof fn plain_not_negative(node: CostNode, buf: Seq<LeafMetrics<Fixed>>, metric: Metric)
    requires
        none_negative(buf, metric),
        leaves_within(node, buf.len() as int),
    ensures
        plain_cost(node, buf, metric) >= 0,
    decreases node, 0int,
{
    match node {
        CostNode::Leaf(slot) => {
            assert(steps_of(buf[slot as int].m, metric) >= 0);
        },
        CostNode::Sum(children) => {
            plain_sum_not_negative(children@, buf, metric, children@.len() as int);
        },
        CostNode::Max { children } => {
            plain_sum_not_negative(children@, buf, metric, children@.len() as int);
            longest_not_negative(children@, buf, children@.len() as int);
        },
        CostNode::Scale { n, child } => {
            plain_not_negative(*child, buf, metric);
            let v = plain_cost(*child, buf, metric);
            assert(n * v >= 0) by (nonlinear_arith)
                requires
                    n >= 0,
                    v >= 0,
            ;
        },
        CostNode::Labeled { label, child } => {
            plain_not_negative(*child, buf, metric);
        },
    }
}

proof fn longest_not_negative(nodes: Seq<CostNode>, buf: Seq<LeafMetrics<Fixed>>, count: int)
    ensures
        plain_longest(nodes, buf, count) >= 0,
    decreases nodes, count,
{
    if 0 < count <= nodes.len() {
        longest_not_negative(nodes, buf, count - 1);
    }
}

proof fn plain_sum_not_negative(
    nodes: Seq<CostNode>,
    buf: Seq<LeafMetrics<Fixed>>,
    metric: Metric,
    count: int,
)
    requires
        none_negative(buf, metric),
        0 <= count <= nodes.len(),
        all_leaves_within(nodes, buf.len() as int, count),
    ensures
        plain_sum(nodes, buf, metric, count) >= 0,
    decreases nodes, count,
{
    if count > 0 {
        plain_sum_not_negative(nodes, buf, metric, count - 1);
        plain_not_negative(nodes[count - 1], buf, metric);
    }
}

/// A cost structure costs what it adds up to, in every metric: whatever is nested in it,
/// each part counts as often as it runs, only the time of parts that run side by side is
/// not added. Left out are negative costs and totals past the largest number.
pub proof fn tree_costs_what_it_adds_up_to(
    node: CostNode,
    buf: Seq<LeafMetrics<Fixed>>,
    metric: Metric,
)
    requires
        none_negative(buf, metric),
        leaves_within(node, buf.len() as int),
        fits(plain_cost(node, buf, metric)),
    ensures
        steps_of(node_cost(node, buf).m, metric) == plain_cost(node, buf, metric),
    decreases node, 0int,
{
    match node {
        CostNode::Leaf(slot) => {},
        CostNode::Sum(children) => {
            parts_add_up(children@, buf, metric, children@.len() as int);
        },
        CostNode::Max { children } => {
            let count = children@.len() as int;
            if metric == Metric::Time {
                longest_counts(children@, buf, count);
            } else {
                parts_add_up(children@, buf, metric, count);
            }
        },
        CostNode::Scale { n, child } => {
            let v = plain_cost(*child, buf, metric);
            let single = total_cost(seq![node_cost(*child, buf)]);
            plain_not_negative(*child, buf, metric);
            sum_of_one(node_cost(*child, buf));
            if n == 0 {
                assert(n * v == 0) by (nonlinear_arith)
                    requires
                        n == 0,
                ;
                assert(n * steps_of(single.m, metric) == 0) by (nonlinear_arith)
                    requires
                        n == 0,
                ;
                repeating_multiplies(single, n as u64, metric);
            } else {
                assert(v <= n * v) by (nonlinear_arith)
                    requires
                        n >= 1,
                        v >= 0,
                ;
                tree_costs_what_it_adds_up_to(*child, buf, metric);
                repeating_multiplies(single, n as u64, metric);
            }
        },
        CostNode::Labeled { label, child } => {
            tree_costs_what_it_adds_up_to(*child, buf, metric);
        },
    }
}

proof fn parts_add_up(
    nodes: Seq<CostNode>,
    buf: Seq<LeafMetrics<Fixed>>,
    metric: Metric,
    count: int,
)
    requires
        none_negative(buf, metric),
        0 <= count <= nodes.len(),
        all_leaves_within(nodes, buf.len() as int, count),
        fits(plain_sum(nodes, buf, metric, count)),
    ensures
        steps_of(total_cost(node_costs(nodes, buf, count)).m, metric) == plain_sum(
            nodes,
            buf,
            metric,
            count,
        ),
    decreases nodes, count,
{
    if count > 0 {
        plain_sum_not_negative(nodes, buf, metric, count - 1);
        plain_not_negative(nodes[count - 1], buf, metric);
        parts_add_up(nodes, buf, metric, count - 1);
        tree_costs_what_it_adds_up_to(nodes[count - 1], buf, metric);
        let costs = node_costs(nodes, buf, count);
        assert(costs.drop_last() =~= node_costs(nodes, buf, count - 1));
        assert(costs.last() == node_cost(nodes[count - 1], buf));
        joining_adds(total_cost(costs.drop_last()), costs.last(), metric);
    }
}

proof fn longest_counts(nodes: Seq<CostNode>, buf: Seq<LeafMetrics<Fixed>>, count: int)
    requires
        none_negative(buf, Metric::Time),
        0 <= count <= nodes.len(),
        all_leaves_within(nodes, buf.len() as int, count),
        fits(plain_longest(nodes, buf, count)),
    ensures
        longest_time(node_costs(nodes, buf, count)).steps == plain_longest(nodes, buf, count),
    decreases nodes, count,
{
    if count > 0 {
        longest_not_negative(nodes, buf, count - 1);
        plain_not_negative(nodes[count - 1], buf, Metric::Time);
        longest_counts(nodes, buf, count - 1);
        tree_costs_what_it_adds_up_to(nodes[count - 1], buf, Metric::Time);
        let costs = node_costs(nodes, buf, count);
        assert(costs.drop_last() =~= node_costs(nodes, buf, count - 1));
        assert(costs.last() == node_cost(nodes[count - 1], buf));
    }
}

/// A sum of one cost has its metrics and its concerns.
pub proof fn sum_of_one(cost: LeafMetrics<Fixed>)
    ensures
        total_cost(seq![cost]).m == cost.m,
        total_cost(seq![cost]).coverage == cost.coverage,
        total_cost(seq![cost]).backend_index == NO_BACKEND,
{
    let costs = seq![cost];
    assert(costs.drop_last() =~= Seq::<LeafMetrics<Fixed>>::empty());
    assert(total_cost(costs.drop_last()) == LeafMetrics::<Fixed>::nothing());
    joining_adds(LeafMetrics::nothing(), cost, Metric::Time);
    joining_adds(LeafMetrics::nothing(), cost, Metric::Flops);
    joining_adds(LeafMetrics::nothing(), cost, Metric::Bytes);
    joining_adds(LeafMetrics::nothing(), cost, Metric::Energy);
    CoverageFlags::clear_is_neutral(cost.coverage);
}

/// A part repeated `n` times costs what a sum of `n` copies of it costs, in every metric,
/// with the same concerns.
pub proof fn repeating_is_adding_copies(n: u32, child: Box<CostNode>, buf: Seq<LeafMetrics<Fixed>>)
    requires
        n > 0,
        forall|metric: Metric| steps_of(node_cost(*child, buf).m, metric) >= 0,
        forall|metric: Metric| fits(n * #[trigger] steps_of(node_cost(*child, buf).m, metric)),
    ensures
        node_cost(CostNode::Scale { n, child }, buf) == total_cost(
            Seq::new(n as nat, |i: int| node_cost(*child, buf)),
        ),
{
    let cost = node_cost(*child, buf);
    let single = total_cost(seq![cost]);
    let whole = node_cost(CostNode::Scale { n, child }, buf);
    let copies = Seq::new(n as nat, |i: int| cost);
    sum_of_one(cost);
    assert(whole == single.repeated(Fixed::count_value(n as u64)));
    copies_add_up(cost, n as int, n as int, Metric::Time);
    copies_add_up(cost, n as int, n as int, Metric::Flops);
    copies_add_up(cost, n as int, n as int, Metric::Bytes);
    copies_add_up(cost, n as int, n as int, Metric::Energy);
    repeating_multiplies(single, n as u64, Metric::Time);
    repeating_multiplies(single, n as u64, Metric::Flops);
    repeating_multiplies(single, n as u64, Metric::Bytes);
    repeating_multiplies(single, n as u64, Metric::Energy);
    assert(whole.m == total_cost(copies).m);
    assert(Seq::new(n as nat, |i: int| node_cost(*child, buf)) =~= copies);
}

proof fn copies_add_up(cost: LeafMetrics<Fixed>, n: int, most: int, metric: Metric)
    requires
        0 <= n <= most,
        steps_of(cost.m, metric) >= 0,
        fits(most * steps_of(cost.m, metric)),
    ensures
        steps_of(total_cost(Seq::new(n as nat, |i: int| cost)).m, metric) == n * steps_of(
            cost.m,
            metric,
        ),
        n > 0 ==> total_cost(Seq::new(n as nat, |i: int| cost)).coverage == cost.coverage,
        total_cost(Seq::new(n as nat, |i: int| cost)).backend_index == NO_BACKEND,
    decreases n,
{
    let v = steps_of(cost.m, metric);
    let copies = Seq::new(n as nat, |i: int| cost);
    if n > 0 {
        copies_add_up(cost, n - 1, most, metric);
        let fewer = Seq::new((n - 1) as nat, |i: int| cost);
        assert(copies.drop_last() =~= fewer);
        assert((n - 1) * v + v == n * v && 0 <= n * v <= most * v) by (nonlinear_arith)
            requires
                0 < n <= most,
                v >= 0,
        ;
        joining_adds(total_cost(fewer), cost, metric);
        CoverageFlags::clear_is_neutral(cost.coverage);
        CoverageFlags::union_laws(cost.coverage, cost.coverage, cost.coverage);
        if n == 1 {
            assert(fewer =~= Seq::<LeafMetrics<Fixed>>::empty());
        }
    } else {
        assert(0 * v == 0);
    }
}

} // verus!
