//! The rendering of a cost structure, line by line.

use crate::cost_tree::layout::{count_of, node_count};
use crate::cost_tree::{
    all_leaves_within, children_lines, leaves_within, node_lines, CostNode, LeafFacts,
};
use crate::text::{decimal, decimal_is_digits, is_digit};
use vstd::prelude::*;

verus! {

/// The bar that stands before a line once per level.
pub open spec fn bar() -> Seq<char> {
    "│  "@
}

/// What the line of a node says.
pub open spec fn heading(slots: Seq<LeafFacts>, node: CostNode) -> Seq<char> {
    match node {
        CostNode::Leaf(slot) => {
            let facts = slots[slot as int];
            "Leaf#"@ + decimal(slot as nat) + " "@ + facts.name + " ("@ + facts.kind + ") "@
                + facts.config
        },
        CostNode::Sum(children) => "Sum"@,
        CostNode::Max { children } => "Max"@,
        CostNode::Scale { n, child } => "Scale{n="@ + decimal(n as nat) + "}"@,
        CostNode::Labeled { label, child } => label@,
    }
}

/// The lines of a node and everything under it: a node before what is under it, each
/// line behind a margin that grows with every level.
pub open spec fn outline(slots: Seq<LeafFacts>, node: CostNode, margin: Seq<char>) -> Seq<Seq<char>>
    decreases node, 0int,
{
    let first = seq![margin + heading(slots, node)];
    match node {
        CostNode::Leaf(slot) => first,
        CostNode::Sum(children) => first + outlines(
            slots,
            children@,
            margin + bar(),
            children@.len() as int,
        ),
        CostNode::Max { children } => first + outlines(
            slots,
            children@,
            margin + bar(),
            children@.len() as int,
        ),
        CostNode::Scale { n, child } => first + outline(slots, *child, margin + bar()),
        CostNode::Labeled { label, child } => first + outline(slots, *child, margin + bar()),
    }
}

/// The lines of the first `count` of several nodes.
pub open spec fn outlines(
    slots: Seq<LeafFacts>,
    nodes: Seq<CostNode>,
    margin: Seq<char>,
    count: int,
) -> Seq<Seq<char>>
    decreases nodes, count,
{
    if count <= 0 || count > nodes.len() {
        seq![]
    } else {
        outlines(slots, nodes, margin, count - 1) + outline(slots, nodes[count - 1], margin)
    }
}

/// Lines as one text, each with its end.
pub open spec fn text_of_lines(lines: Seq<Seq<char>>) -> Seq<char>
    decreases lines.len(),
{
    if lines.len() == 0 {
        seq![]
    } else {
        text_of_lines(lines.drop_last()) + lines.last() + "\n"@
    }
}

/// Every line with the same text before it.
pub open spec fn behind(margin: Seq<char>, lines: Seq<Seq<char>>) -> Seq<Seq<char>> {
    lines.map_values(|line: Seq<char>| margin + line)
}

proof fn text_of_joined(a: Seq<Seq<char>>, b: Seq<Seq<char>>)
    ensures
        text_of_lines(a + b) == text_of_lines(a) + text_of_lines(b),
    decreases b.len(),
{
    if b.len() == 0 {
        assert(a + b =~= a);
        assert(text_of_lines(a) + text_of_lines(b) =~= text_of_lines(a));
    } else {
        text_of_joined(a, b.drop_last());
        assert((a + b).drop_last() =~= a + b.drop_last());
        assert(text_of_lines(a + b) =~= text_of_lines(a) + text_of_lines(b));
    }
}

proof fn text_of_one(line: Seq<char>)
    ensures
        text_of_lines(seq![line]) == line + "\n"@,
{
    reveal_with_fuel(text_of_lines, 2);
    assert(seq![line].drop_last() =~= Seq::<Seq<char>>::empty());
    assert(text_of_lines(seq![line]) =~= line + "\n"@);
}

/// The rendered text of a node is the text of its lines.
pub proof fn rendering_is_outline(slots: Seq<LeafFacts>, node: CostNode, margin: Seq<char>)
    ensures
        node_lines(slots, node, margin) == text_of_lines(outline(slots, node, margin)),
    decreases node, 0int,
{
    let first = seq![margin + heading(slots, node)];
    text_of_one(margin + heading(slots, node));
    reveal_strlit("Sum\n");
    reveal_strlit("Max\n");
    reveal_strlit("}\n");
    reveal_strlit("Sum");
    reveal_strlit("Max");
    reveal_strlit("}");
    reveal_strlit("\n");
    assert("Sum\n"@ =~= "Sum"@ + "\n"@);
    assert("Max\n"@ =~= "Max"@ + "\n"@);
    assert("}\n"@ =~= "}"@ + "\n"@);
    match node {
        CostNode::Leaf(slot) => {
            assert(node_lines(slots, node, margin) =~= text_of_lines(first));
        },
        CostNode::Sum(children) => {
            let count = children@.len() as int;
            renderings_are_outlines(slots, children@, margin + bar(), count);
            text_of_joined(first, outlines(slots, children@, margin + bar(), count));
            assert(node_lines(slots, node, margin) =~= text_of_lines(
                outline(slots, node, margin),
            ));
        },
        CostNode::Max { children } => {
            let count = children@.len() as int;
            renderings_are_outlines(slots, children@, margin + bar(), count);
            text_of_joined(first, outlines(slots, children@, margin + bar(), count));
            assert(node_lines(slots, node, margin) =~= text_of_lines(
                outline(slots, node, margin),
            ));
        },
        CostNode::Scale { n, child } => {
            rendering_is_outline(slots, *child, margin + bar());
            text_of_joined(first, outline(slots, *child, margin + bar()));
            assert(node_lines(slots, node, margin) =~= text_of_lines(
                outline(slots, node, margin),
            ));
        },
        CostNode::Labeled { label, child } => {
            rendering_is_outline(slots, *child, margin + bar());
            text_of_joined(first, outline(slots, *child, margin + bar()));
            assert(node_lines(slots, node, margin) =~= text_of_lines(
                outline(slots, node, margin),
            ));
        },
    }
}

proof fn renderings_are_outlines(
    slots: Seq<LeafFacts>,
    nodes: Seq<CostNode>,
    margin: Seq<char>,
    count: int,
)
    requires
        0 <= count <= nodes.len(),
    ensures
        children_lines(slots, nodes, margin, count) == text_of_lines(
            outlines(slots, nodes, margin, count),
        ),
    decreases nodes, count,
{
    if count > 0 {
        renderings_are_outlines(slots, nodes, margin, count - 1);
        rendering_is_outline(slots, nodes[count - 1], margin);
        text_of_joined(
            outlines(slots, nodes, margin, count - 1),
            outline(slots, nodes[count - 1], margin),
        );
    }
}

/// There is one line per node, labels included.
pub proof fn outline_has_a_line_per_node(
    slots: Seq<LeafFacts>,
    node: CostNode,
    margin: Seq<char>,
)
    ensures
        outline(slots, node, margin).len() == node_count(node),
    decreases node, 0int,
{
    match node {
        CostNode::Leaf(slot) => {},
        CostNode::Sum(children) => {
            outlines_have_a_line_per_node(
                slots,
                children@,
                margin + bar(),
                children@.len() as int,
            );
        },
        CostNode::Max { children } => {
            outlines_have_a_line_per_node(
                slots,
                children@,
                margin + bar(),
                children@.len() as int,
            );
        },
        CostNode::Scale { n, child } => {
            outline_has_a_line_per_node(slots, *child, margin + bar());
        },
        CostNode::Labeled { label, child } => {
            outline_has_a_line_per_node(slots, *child, margin + bar());
        },
    }
}

proof fn outlines_have_a_line_per_node(
    slots: Seq<LeafFacts>,
    nodes: Seq<CostNode>,
    margin: Seq<char>,
    count: int,
)
    requires
        0 <= count <= nodes.len(),
    ensures
        outlines(slots, nodes, margin, count).len() == count_of(nodes, count),
    decreases nodes, count,
{
    if count > 0 {
        outlines_have_a_line_per_node(slots, nodes, margin, count - 1);
        outline_has_a_line_per_node(slots, nodes[count - 1], margin);
    }
}

proof fn behind_joined(margin: Seq<char>, a: Seq<Seq<char>>, b: Seq<Seq<char>>)
    ensures
        behind(margin, a + b) == behind(margin, a) + behind(margin, b),
{
    assert(behind(margin, a + b) =~= behind(margin, a) + behind(margin, b));
}

/// A rendering behind a further margin is the rendering itself with that margin before
/// each line.
pub proof fn deeper_outline_is_behind(
    slots: Seq<LeafFacts>,
    node: CostNode,
    before: Seq<char>,
    margin: Seq<char>,
)
    ensures
        outline(slots, node, before + margin) == behind(before, outline(slots, node, margin)),
    decreases node, 0int,
{
    let line = margin + heading(slots, node);
    let first = seq![line];
    let inner = margin + bar();
    assert(before + margin + heading(slots, node) =~= before + line);
    assert(before + margin + bar() =~= before + inner);
    assert(behind(before, first) =~= seq![before + line]);
    match node {
        CostNode::Leaf(slot) => {},
        CostNode::Sum(children) => {
            let count = children@.len() as int;
            deeper_outlines_are_behind(slots, children@, before, inner, count);
            behind_joined(before, first, outlines(slots, children@, inner, count));
        },
        CostNode::Max { children } => {
            let count = children@.len() as int;
            deeper_outlines_are_behind(slots, children@, before, inner, count);
            behind_joined(before, first, outlines(slots, children@, inner, count));
        },
        CostNode::Scale { n, child } => {
            deeper_outline_is_behind(slots, *child, before, inner);
            behind_joined(before, first, outline(slots, *child, inner));
        },
        CostNode::Labeled { label, child } => {
            deeper_outline_is_behind(slots, *child, before, inner);
            behind_joined(before, first, outline(slots, *child, inner));
        },
    }
}

proof fn deeper_outlines_are_behind(
    slots: Seq<LeafFacts>,
    nodes: Seq<CostNode>,
    before: Seq<char>,
    margin: Seq<char>,
    count: int,
)
    requires
        0 <= count <= nodes.len(),
    ensures
        outlines(slots, nodes, before + margin, count) == behind(
            before,
            outlines(slots, nodes, margin, count),
        ),
    decreases nodes, count,
{
    if count > 0 {
        deeper_outlines_are_behind(slots, nodes, before, margin, count - 1);
        deeper_outline_is_behind(slots, nodes[count - 1], before, margin);
        behind_joined(
            before,
            outlines(slots, nodes, margin, count - 1),
            outline(slots, nodes[count - 1], margin),
        );
    } else {
        assert(behind(before, Seq::<Seq<char>>::empty()) =~= Seq::<Seq<char>>::empty());
    }
}

/// The bar once per level.
pub open spec fn bars(depth: nat) -> Seq<char>
    decreases depth,
{
    if depth == 0 {
        seq![]
    } else {
        bars((depth - 1) as nat) + bar()
    }
}

/// Rendered at a depth, a node gives one line per node in it, and the lines are those of
/// the rendering at depth zero with the bar put before each once per level.
pub proof fn deeper_rendering_is_behind_bars(slots: Seq<LeafFacts>, node: CostNode, depth: nat)
    ensures
        node_lines(slots, node, bars(depth)) == text_of_lines(
            behind(bars(depth), outline(slots, node, seq![])),
        ),
        node_lines(slots, node, seq![]) == text_of_lines(outline(slots, node, seq![])),
        outline(slots, node, seq![]).len() == node_count(node),
{
    let top = Seq::<char>::empty();
    rendering_is_outline(slots, node, top);
    rendering_is_outline(slots, node, bars(depth));
    deeper_outline_is_behind(slots, node, bars(depth), top);
    assert(bars(depth) + top =~= bars(depth));
    outline_has_a_line_per_node(slots, node, top);
}

/// Whether a text stays on one line.
pub open spec fn on_one_line(text: Seq<char>) -> bool {
    forall|i: int| 0 <= i < text.len() ==> #[trigger] text[i] != '\n'
}

/// Whether every one of several lines stays on one line.
pub open spec fn each_on_one_line(lines: Seq<Seq<char>>) -> bool {
    forall|i: int| 0 <= i < lines.len() ==> on_one_line(#[trigger] lines[i])
}

/// Whether the slots' names, kinds and configurations each stay on one line.
pub open spec fn slots_on_one_line(slots: Seq<LeafFacts>) -> bool {
    forall|i: int|
        0 <= i < slots.len() ==> on_one_line((#[trigger] slots[i]).name) && on_one_line(
            slots[i].kind,
        ) && on_one_line(slots[i].config)
}

/// Whether every label of a node stays on one line.
pub open spec fn labels_on_one_line(node: CostNode) -> bool
    decreases node, 0int,
{
    match node {
        CostNode::Leaf(slot) => true,
        CostNode::Sum(children) => all_labels_on_one_line(children@, children@.len() as int),
        CostNode::Max { children } => all_labels_on_one_line(children@, children@.len() as int),
        CostNode::Scale { n, child } => labels_on_one_line(*child),
        CostNode::Labeled { label, child } => on_one_line(label@) && labels_on_one_line(*child),
    }
}

/// The same of the first `count` of several nodes.
pub open spec fn all_labels_on_one_line(nodes: Seq<CostNode>, count: int) -> bool
    decreases nodes, count,
{
    if count <= 0 || count > nodes.len() {
        true
    } else {
        all_labels_on_one_line(nodes, count - 1) && labels_on_one_line(nodes[count - 1])
    }
}

proof fn joined_on_one_line(a: Seq<char>, b: Seq<char>)
    requires
        on_one_line(a),
        on_one_line(b),
    ensures
        on_one_line(a + b),
{
    assert forall|i: int| 0 <= i < (a + b).len() implies #[trigger] (a + b)[i] != '\n' by {
        if i < a.len() {
            assert((a + b)[i] == a[i]);
        } else {
            assert((a + b)[i] == b[i - a.len()]);
        }
    }
}

proof fn each_joined_on_one_line(a: Seq<Seq<char>>, b: Seq<Seq<char>>)
    requires
        each_on_one_line(a),
        each_on_one_line(b),
    ensures
        each_on_one_line(a + b),
{
    assert forall|i: int| 0 <= i < (a + b).len() implies on_one_line(#[trigger] (a + b)[i]) by {
        if i < a.len() {
            assert((a + b)[i] == a[i]);
        } else {
            assert((a + b)[i] == b[i - a.len()]);
        }
    }
}

proof fn decimal_on_one_line(n: nat)
    ensures
        on_one_line(decimal(n)),
{
    decimal_is_digits(n);
    assert forall|i: int| 0 <= i < decimal(n).len() implies #[trigger] decimal(n)[i] != '\n' by {
        assert(is_digit(decimal(n)[i]));
    }
}

proof fn heading_on_one_line(slots: Seq<LeafFacts>, node: CostNode)
    requires
        slots_on_one_line(slots),
        labels_on_one_line(node),
        leaves_within(node, slots.len() as int),
    ensures
        on_one_line(heading(slots, node)),
{
    match node {
        CostNode::Leaf(slot) => {
            let facts = slots[slot as int];
            let number = decimal(slot as nat);
            reveal_strlit("Leaf#");
            reveal_strlit(" ");
            reveal_strlit(" (");
            reveal_strlit(") ");
            decimal_on_one_line(slot as nat);
            joined_on_one_line("Leaf#"@, number);
            joined_on_one_line("Leaf#"@ + number, " "@);
            joined_on_one_line("Leaf#"@ + number + " "@, facts.name);
            joined_on_one_line("Leaf#"@ + number + " "@ + facts.name, " ("@);
            joined_on_one_line("Leaf#"@ + number + " "@ + facts.name + " ("@, facts.kind);
            joined_on_one_line(
                "Leaf#"@ + number + " "@ + facts.name + " ("@ + facts.kind,
                ") "@,
            );
            joined_on_one_line(
                "Leaf#"@ + number + " "@ + facts.name + " ("@ + facts.kind + ") "@,
                facts.config,
            );
        },
        CostNode::Sum(children) => {
            reveal_strlit("Sum");
        },
        CostNode::Max { children } => {
            reveal_strlit("Max");
        },
        CostNode::Scale { n, child } => {
            reveal_strlit("Scale{n=");
            reveal_strlit("}");
            decimal_on_one_line(n as nat);
            joined_on_one_line("Scale{n="@, decimal(n as nat));
            joined_on_one_line("Scale{n="@ + decimal(n as nat), "}"@);
        },
        CostNode::Labeled { label, child } => {},
    }
}

/// The lines of a rendering are the lines of its text: where no name, kind,
/// configuration or label breaks over a line, no line of the outline does.
pub proof fn outline_stays_on_its_lines(
    slots: Seq<LeafFacts>,
    node: CostNode,
    margin: Seq<char>,
)
    requires
        slots_on_one_line(slots),
        labels_on_one_line(node),
        leaves_within(node, slots.len() as int),
        on_one_line(margin),
    ensures
        each_on_one_line(outline(slots, node, margin)),
    decreases node, 0int,
{
    reveal_strlit("│  ");
    heading_on_one_line(slots, node);
    joined_on_one_line(margin, heading(slots, node));
    joined_on_one_line(margin, bar());
    let inner = margin + bar();
    let first = seq![margin + heading(slots, node)];
    assert(each_on_one_line(first));
    match node {
        CostNode::Leaf(slot) => {},
        CostNode::Sum(children) => {
            let count = children@.len() as int;
            outlines_stay_on_their_lines(slots, children@, inner, count);
            each_joined_on_one_line(first, outlines(slots, children@, inner, count));
        },
        CostNode::Max { children } => {
            let count = children@.len() as int;
            outlines_stay_on_their_lines(slots, children@, inner, count);
            each_joined_on_one_line(first, outlines(slots, children@, inner, count));
        },
        CostNode::Scale { n, child } => {
            outline_stays_on_its_lines(slots, *child, inner);
            each_joined_on_one_line(first, outline(slots, *child, inner));
        },
        CostNode::Labeled { label, child } => {
            outline_stays_on_its_lines(slots, *child, inner);
            each_joined_on_one_line(first, outline(slots, *child, inner));
        },
    }
}

proof fn outlines_stay_on_their_lines(
    slots: Seq<LeafFacts>,
    nodes: Seq<CostNode>,
    margin: Seq<char>,
    count: int,
)
    requires
        0 <= count <= nodes.len(),
        slots_on_one_line(slots),
        all_labels_on_one_line(nodes, count),
        all_leaves_within(nodes, slots.len() as int, count),
        on_one_line(margin),
    ensures
        each_on_one_line(outlines(slots, nodes, margin, count)),
    decreases nodes, count,
{
    if count > 0 {
        outlines_stay_on_their_lines(slots, nodes, margin, count - 1);
        outline_stays_on_its_lines(slots, nodes[count - 1], margin);
        each_joined_on_one_line(
            outlines(slots, nodes, margin, count - 1),
            outline(slots, nodes[count - 1], margin),
        );
    }
}

} // verus!
