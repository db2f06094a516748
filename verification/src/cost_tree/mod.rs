//! The structure of a cost query, compiled once and evaluated many times.
//!
//! Which primitives a query runs and how they compose is stable; only the metrics of
//! the leaves vary. The structure is built as a tree whose leaves are numbered slots,
//! laid out flat for evaluation, and evaluated over a buffer with one cost per slot.

use crate::text::{decimal, push_decimal};
use crate::text_map::TextMap;
use vstd::prelude::*;

pub mod flat;
pub mod layout;
pub mod outline;
pub mod totals;

verus! {

/// A node of the cost structure.
#[derive(Debug, PartialEq)]
pub enum CostNode {
    /// One primitive; its number is its slot.
    Leaf(usize),
    /// Run one after the other: everything adds.
    Sum(Vec<CostNode>),
    /// Run side by side: the slowest time counts, work adds.
    Max { children: Vec<CostNode> },
    /// The same subtree `n` times over.
    Scale { n: u32, child: Box<CostNode> },
    /// A line that identifies a subtree; it costs nothing.
    Labeled { label: String, child: Box<CostNode> },
}

/// What is known of a slot: its dotted name, its kernel kind and one-line
/// configuration, its candidate backends in order, and the values of the symbols in its
/// configuration.
#[derive(Clone, Debug, PartialEq)]
pub struct LeafDesc {
    pub name: String,
    pub kind: String,
    pub config: String,
    pub backends: Vec<String>,
    pub symbols: TextMap<u32>,
}

/// A slot's description by what its parts hold.
#[verifier::ext_equal]
pub struct LeafFacts {
    pub name: Seq<char>,
    pub kind: Seq<char>,
    pub config: Seq<char>,
    pub backends: Seq<Seq<char>>,
    pub symbols: Map<Seq<char>, u32>,
}

impl View for LeafDesc {
    type V = LeafFacts;

    open spec fn view(&self) -> LeafFacts {
        LeafFacts {
            name: self.name@,
            kind: self.kind@,
            config: self.config@,
            backends: self.backends@.map_values(|name: String| name@),
            symbols: self.symbols@,
        }
    }
}

impl LeafDesc {
    pub open spec fn wf(&self) -> bool {
        self.symbols.wf()
    }

    /// A copy of the description.
    pub fn copy(&self) -> (r: Self)
        requires
            self.wf(),
        ensures
            r.wf(),
            r@ == self@,
    {
        let mut backends: Vec<String> = Vec::new();
        let mut i: usize = 0;
        while i < self.backends.len()
            invariant
                i <= self.backends@.len(),
                backends@ == self.backends@.take(i as int),
            decreases self.backends@.len() - i,
        {
            backends.push(self.backends[i].clone());
            i += 1;
            assert(backends@ =~= self.backends@.take(i as int));
        }
        assert(backends@ =~= self.backends@);
        LeafDesc {
            name: self.name.clone(),
            kind: self.kind.clone(),
            config: self.config.clone(),
            backends,
            symbols: self.symbols.copy(),
        }
    }
}

/// The descriptions of slots by what their parts hold.
pub open spec fn facts(slots: Seq<LeafDesc>) -> Seq<LeafFacts> {
    slots.map_values(|slot: LeafDesc| slot@)
}

pub open spec fn slots_wf(slots: Seq<LeafDesc>) -> bool {
    forall|i: int| 0 <= i < slots.len() ==> (#[trigger] slots[i]).wf()
}

/// A compiled structure and its slots.
#[derive(Debug)]
pub struct CostTree {
    pub root: CostNode,
    pub slots: Vec<LeafDesc>,
}

/// Hands out slots in the order in which leaves are visited.
#[derive(Clone, Debug)]
pub struct CostTreeBuilder {
    slots: Vec<LeafDesc>,
}

impl CostTreeBuilder {
    pub closed spec fn minted(&self) -> Seq<LeafFacts> {
        facts(self.slots@)
    }

    pub closed spec fn wf(&self) -> bool {
        slots_wf(self.slots@)
    }

    /// A builder that has handed out no slot.
    pub fn new() -> (r: Self)
        ensures
            r.wf(),
            r.minted() == Seq::<LeafFacts>::empty(),
    {
        let r = CostTreeBuilder { slots: Vec::new() };
        assert(r.minted() =~= Seq::<LeafFacts>::empty());
        r
    }

    /// The next slot, for a leaf without symbols.
    pub fn leaf(&mut self, name: &str, kind: &str, config: &str, backends: Vec<String>) -> (r:
        CostNode)
        requires
            old(self).wf(),
        ensures
            final(self).wf(),
            r == CostNode::Leaf(old(self).minted().len() as usize),
            old(self).minted().len() < usize::MAX,
            final(self).minted() == old(self).minted().push(
                (LeafFacts {
                    name: name@,
                    kind: kind@,
                    config: config@,
                    backends: backends@.map_values(|name: String| name@),
                    symbols: Map::empty(),
                }),
            ),
    {
        self.leaf_with_symbols(name, kind, config, backends, TextMap::new())
    }

    /// The next slot.
    pub fn leaf_with_symbols(
        &mut self,
        name: &str,
        kind: &str,
        config: &str,
        backends: Vec<String>,
        symbols: TextMap<u32>,
    ) -> (r: CostNode)
        requires
            old(self).wf(),
            symbols.wf(),
        ensures
            final(self).wf(),
            r == CostNode::Leaf(old(self).minted().len() as usize),
            old(self).minted().len() < usize::MAX,
            final(self).minted() == old(self).minted().push(
                (LeafFacts {
                    name: name@,
                    kind: kind@,
                    config: config@,
                    backends: backends@.map_values(|name: String| name@),
                    symbols: symbols@,
                }),
            ),
    {
        let slot: usize = self.slots.len();
        let ghost before = self.slots@;
        self.slots.push(
            LeafDesc {
                name: name.to_owned(),
                kind: kind.to_owned(),
                config: config.to_owned(),
                backends,
                symbols,
            },
        );
        proof {
            assert(self.slots.len() == slot + 1);
            assert(self.slots@.drop_last() =~= before);
            assert(self.minted() =~= facts(before).push(self.slots@.last()@));
        }
        CostNode::Leaf(slot)
    }

    /// The compiled structure: the root over the slots that were handed out.
    pub fn finish(self, root: CostNode) -> (r: CostTree)
        requires
            self.wf(),
        ensures
            r.root == root,
            facts(r.slots@) == self.minted(),
            slots_wf(r.slots@),
    {
        CostTree { root, slots: self.slots }
    }
}

/// Whether every leaf under a node has its slot among the first `slots`.
pub open spec fn leaves_within(node: CostNode, slots: int) -> bool
    decreases node, 0int,
{
    match node {
        CostNode::Leaf(slot) => slot < slots,
        CostNode::Sum(children) => all_leaves_within(children@, slots, children@.len() as int),
        CostNode::Max { children } => all_leaves_within(
            children@,
            slots,
            children@.len() as int,
        ),
        CostNode::Scale { n, child } => leaves_within(*child, slots),
        CostNode::Labeled { label, child } => leaves_within(*child, slots),
    }
}

/// The same of the first `count` of several nodes.
pub open spec fn all_leaves_within(nodes: Seq<CostNode>, slots: int, count: int) -> bool
    decreases nodes, count,
{
    if count <= 0 || count > nodes.len() {
        true
    } else {
        all_leaves_within(nodes, slots, count - 1) && leaves_within(nodes[count - 1], slots)
    }
}

/// Each of several nodes has its leaves' slots in range.
pub proof fn each_within(nodes: Seq<CostNode>, slots: int, count: int, i: int)
    requires
        all_leaves_within(nodes, slots, count),
        0 <= i < count <= nodes.len(),
    ensures
        leaves_within(nodes[i], slots),
    decreases count,
{
    if i < count - 1 {
        each_within(nodes, slots, count - 1, i);
    }
}

/// The rendered lines of a node and everything under it, behind a margin that grows
/// with every level.
pub open spec fn node_lines(slots: Seq<LeafFacts>, node: CostNode, margin: Seq<char>) -> Seq<char>
    decreases node, 0int,
{
    match node {
        CostNode::Leaf(slot) => {
            let facts = slots[slot as int];
            margin + "Leaf#"@ + decimal(slot as nat) + " "@ + facts.name + " ("@
                + facts.kind + ") "@ + facts.config + "\n"@
        },
        CostNode::Sum(children) => margin + "Sum\n"@ + children_lines(
            slots,
            children@,
            margin + "│  "@,
            children@.len() as int,
        ),
        CostNode::Max { children } => margin + "Max\n"@ + children_lines(
            slots,
            children@,
            margin + "│  "@,
            children@.len() as int,
        ),
        CostNode::Scale { n, child } => margin + "Scale{n="@ + decimal(n as nat) + "}\n"@
            + node_lines(slots, *child, margin + "│  "@),
        CostNode::Labeled { label, child } => margin + label@ + "\n"@ + node_lines(
            slots,
            *child,
            margin + "│  "@,
        ),
    }
}

/// The rendered lines of the first `count` of several nodes.
pub open spec fn children_lines(
    slots: Seq<LeafFacts>,
    nodes: Seq<CostNode>,
    margin: Seq<char>,
    count: int,
) -> Seq<char>
    decreases nodes, count,
{
    if count <= 0 || count > nodes.len() {
        seq![]
    } else {
        children_lines(slots, nodes, margin, count - 1) + node_lines(
            slots,
            nodes[count - 1],
            margin,
        )
    }
}

/// The indentation one level deeper.
fn deeper(margin: &str) -> (r: String)
    ensures
        r@ == margin@ + "│  "@,
{
    let mut out = margin.to_owned();
    out.append("│  ");
    out
}

/// Append the rendered lines of a node.
fn write_node(slots: &Vec<LeafDesc>, node: &CostNode, margin: &str, out: &mut String)
    requires
        leaves_within(*node, slots@.len() as int),
    ensures
        final(out)@ == old(out)@ + node_lines(facts(slots@), *node, margin@),
    decreases node, 0int,
{
    let ghost before = out@;
    out.append(margin);
    match node {
        CostNode::Leaf(slot) => {
            let desc: &LeafDesc = &slots[*slot];
            out.append("Leaf#");
            push_decimal(out, *slot as u64);
            out.append(" ");
            out.append(desc.name.as_str());
            out.append(" (");
            out.append(desc.kind.as_str());
            out.append(") ");
            out.append(desc.config.as_str());
            out.append("\n");
        },
        CostNode::Sum(children) => {
            out.append("Sum\n");
            let inner: String = deeper(margin);
            write_children(slots, children, inner.as_str(), out);
        },
        CostNode::Max { children } => {
            out.append("Max\n");
            let inner: String = deeper(margin);
            write_children(slots, children, inner.as_str(), out);
        },
        CostNode::Scale { n, child } => {
            out.append("Scale{n=");
            push_decimal(out, *n as u64);
            out.append("}\n");
            let inner: String = deeper(margin);
            write_node(slots, child, inner.as_str(), out);
        },
        CostNode::Labeled { label, child } => {
            out.append(label.as_str());
            out.append("\n");
            let inner: String = deeper(margin);
            write_node(slots, child, inner.as_str(), out);
        },
    }
    assert(out@ =~= before + node_lines(facts(slots@), *node, margin@));
}

fn write_children(slots: &Vec<LeafDesc>, nodes: &Vec<CostNode>, margin: &str, out: &mut String)
    requires
        all_leaves_within(nodes@, slots@.len() as int, nodes@.len() as int),
    ensures
        final(out)@ == old(out)@ + children_lines(
            facts(slots@),
            nodes@,
            margin@,
            nodes@.len() as int,
        ),
    decreases nodes, 1int,
{
    let mut i: usize = 0;
    assert(out@ =~= old(out)@ + children_lines(facts(slots@), nodes@, margin@, 0));
    while i < nodes.len()
        invariant
            i <= nodes@.len(),
            all_leaves_within(nodes@, slots@.len() as int, nodes@.len() as int),
                out@ == old(out)@ + children_lines(facts(slots@), nodes@, margin@, i as int),
        decreases nodes@.len() - i,
    {
        proof {
            each_within(nodes@, slots@.len() as int, nodes@.len() as int, i as int);
        }
        write_node(slots, &nodes[i], margin, out);
        i += 1;
        assert(out@ =~= old(out)@ + children_lines(facts(slots@), nodes@, margin@, i as int));
    }
}

impl CostTree {
    /// Whether every leaf has its slot.
    pub open spec fn wf(&self) -> bool {
        slots_wf(self.slots@) && leaves_within(self.root, self.slots@.len() as int)
    }

    /// How many slots there are; a repeated subtree counts once.
    pub fn n_slots(&self) -> (r: usize)
        ensures
            r == self.slots@.len(),
    {
        self.slots.len()
    }

    /// The structure as indented lines: a line per node, with each leaf's slot, name,
    /// kind and configuration.
    pub fn describe(&self) -> (r: String)
        requires
            self.wf(),
        ensures
            r@ == node_lines(facts(self.slots@), self.root, seq![]),
    {
        let mut out = String::new();
        let margin = String::new();
        assert(margin@ =~= seq![]);
        write_node(&self.slots, &self.root, margin.as_str(), &mut out);
        assert(out@ =~= node_lines(facts(self.slots@), self.root, seq![]));
        out
    }
}

} // verus!
