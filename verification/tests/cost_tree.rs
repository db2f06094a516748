//! Cost trees: slots, rendering, flattening and aggregation.

use timing::cache::interp::{CoverageFlags, LeafMetrics, Metrics4, NO_BACKEND};
use timing::cache::scalar::{Scalar, Wide};
use timing::cost_tree::flat::{is_well_laid, Evaluator};
use timing::cost_tree::layout::{CostManifestDoc, FlatCostNode, Span};
use timing::cost_tree::{CostNode, CostTree, CostTreeBuilder};
use timing::jit::{aggregate_backend_plans, JitPlan};
use timing::bridge::error::BuildError;
use timing::text_map::TextMap;

/// Single precision, as tables are held in.
#[derive(Clone, Copy, Debug, PartialEq, PartialOrd)]
struct F(f32);

/// Double precision, as sums are taken in.
#[derive(Clone, Copy, Debug, PartialEq, PartialOrd)]
struct D(f64);

impl Wide for D {
    fn from_count(count: u64) -> Self {
        D(count as f64)
    }

    fn from_ratio(numerator: u64, denominator: u64) -> Self {
        D(numerator as f64 / denominator as f64)
    }

    fn plus(self, other: Self) -> Self {
        D(self.0 + other.0)
    }

    fn minus(self, other: Self) -> Self {
        D(self.0 - other.0)
    }

    fn times(self, other: Self) -> Self {
        D(self.0 * other.0)
    }

    fn over(self, other: Self) -> Self {
        D(self.0 / other.0)
    }

    fn abs(self) -> Self {
        D(self.0.abs())
    }

    fn as_count(self) -> u64 {
        self.0 as u64
    }

    fn epsilon() -> Self {
        D(f64::EPSILON)
    }

    fn is_finite(self) -> bool {
        self.0.is_finite()
    }

    fn at_most(self, other: Self) -> bool {
        self.0 <= other.0
    }

    fn sorts_before(self, other: Self) -> bool {
        self.0.total_cmp(&other.0).is_lt()
    }
}

impl Scalar for F {
    type Wide = D;

    fn zero() -> Self {
        F(0.0)
    }

    fn one() -> Self {
        F(1.0)
    }

    fn from_count(count: u64) -> Self {
        F(count as f32)
    }

    fn plus(self, other: Self) -> Self {
        F(self.0 + other.0)
    }

    fn minus(self, other: Self) -> Self {
        F(self.0 - other.0)
    }

    fn times(self, other: Self) -> Self {
        F(self.0 * other.0)
    }

    fn over(self, other: Self) -> Self {
        F(self.0 / other.0)
    }

    fn is_tiny(self) -> bool {
        self.0.abs() <= f32::EPSILON
    }

    fn is_notable(self) -> bool {
        self.0.abs() > f32::EPSILON
    }

    fn is_nan(self) -> bool {
        self.0.is_nan()
    }

    fn is_finite(self) -> bool {
        self.0.is_finite()
    }

    fn as_index(self) -> usize {
        self.0 as usize
    }

    fn tolerance() -> Self {
        F(0.10)
    }

    fn band_fraction() -> Self {
        F(0.25)
    }

    fn is_step(self, spacing: Self) -> bool {
        (self.0 - spacing.0).abs() <= spacing.0 * 1e-3
    }

    fn widen(self) -> D {
        D(f64::from(self.0))
    }

    fn narrow(wide: D) -> Self {
        F(wide.0 as f32)
    }

    fn at_most(self, other: Self) -> bool {
        self.0 <= other.0
    }

    fn below(self, other: Self) -> bool {
        self.0 < other.0
    }
}

/// `Sum( leaf a, Scale{3}( Sum(leaf b, leaf c) ), leaf d )`.
fn sample() -> CostTree {
    let mut b = CostTreeBuilder::new();
    let a = b.leaf("a", "ka", "x=1", vec![]);
    let layer = CostNode::Scale {
        n: 3,
        child: Box::new(CostNode::Sum(vec![
            b.leaf("b", "kb", "x=2", vec![]),
            b.leaf("c", "kc", "x=3", vec![]),
        ])),
    };
    let d = b.leaf("d", "kd", "x=4", vec![]);
    b.finish(CostNode::Sum(vec![a, layer, d]))
}

#[test]
fn leaf_desc_carries_symbols_and_skips_when_empty() {
    let mut b = CostTreeBuilder::new();
    let mut syms = TextMap::new();
    syms.insert("attn_tp", 4u32);
    syms.insert("num_qo_heads", 64u32);
    b.leaf_with_symbols("m.qkv", "single_gemm", "n=…", vec![], syms);
    b.leaf("m.comm", "p2p_inter", "", vec![]);
    let tree = b.finish(CostNode::Sum(vec![CostNode::Leaf(0), CostNode::Leaf(1)]));

    assert_eq!(tree.slots[0].symbols.get("attn_tp"), Some(&4));
    assert_eq!(tree.slots[0].symbols.get("num_qo_heads"), Some(&64));
    assert!(tree.slots[1].symbols.is_empty());
}

#[test]
fn slots_minted_in_visit_order() {
    let t = sample();
    assert_eq!(t.n_slots(), 4);
    let names: Vec<&str> = t.slots.iter().map(|s| s.name.as_str()).collect();
    assert_eq!(names, ["a", "b", "c", "d"]);
}

#[test]
fn describe_renders_fold_and_leaves() {
    let expected = "\
Sum
│  Leaf#0 a (ka) x=1
│  Scale{n=3}
│  │  Sum
│  │  │  Leaf#1 b (kb) x=2
│  │  │  Leaf#2 c (kc) x=3
│  Leaf#3 d (kd) x=4
";
    assert_eq!(sample().describe(), expected);
}

#[test]
fn describe_renders_labeled_header_then_child() {
    let mut b = CostTreeBuilder::new();
    let leaf = b.leaf("w.norm", "rms_norm", "hidden=4096, dtype=Bf16", vec![]);
    let tree = b.finish(CostNode::Labeled {
        label: "w (PreAttnLocalWorklet) [local (1 GPU); qkv n=6144, k=4096]".to_string(),
        child: Box::new(CostNode::Sum(vec![leaf])),
    });
    let expected = "\
w (PreAttnLocalWorklet) [local (1 GPU); qkv n=6144, k=4096]
│  Sum
│  │  Leaf#0 w.norm (rms_norm) hidden=4096, dtype=Bf16
";
    assert_eq!(tree.describe(), expected);
    let flat = tree.flatten();
    assert!(matches!(flat[0], FlatCostNode::Sum { .. }));
    assert_eq!(flat.iter().filter(|n| matches!(n, FlatCostNode::Leaf(_))).count(), 1);
    let manifest = tree.manifest();
    assert_eq!(manifest.node_labels.len(), manifest.nodes.len());
    assert_eq!(
        manifest.node_labels[0].as_deref(),
        Some("w (PreAttnLocalWorklet) [local (1 GPU); qkv n=6144, k=4096]")
    );
}

#[test]
fn manifest_labels_tag_composite_subtrees_not_leaves() {
    let mut b = CostTreeBuilder::new();
    let pre = CostNode::Labeled {
        label: "m.pre_attn (PreAttnLocalWorklet)".to_string(),
        child: Box::new(CostNode::Sum(vec![b.leaf("m.pre_attn.norm", "rms_norm", "", vec![])])),
    };
    let attn = CostNode::Labeled {
        label: "m.attn (AttnLocalWorklet)".to_string(),
        child: Box::new(CostNode::Sum(vec![
            b.leaf("m.attn.prefill", "flashinfer_attn_prefill", "", vec![]),
            b.leaf("m.attn.decode", "flashinfer_attn_decode", "", vec![]),
        ])),
    };
    let tree = b.finish(CostNode::Sum(vec![pre, attn]));
    let m = tree.manifest();
    assert_eq!(m.node_labels.len(), m.nodes.len());
    for (node, label) in m.nodes.iter().zip(&m.node_labels) {
        if matches!(node, FlatCostNode::Leaf(_)) {
            assert!(label.is_none(), "leaf nodes carry no composite label");
        }
    }
    let labels: Vec<&str> = m.node_labels.iter().flatten().map(String::as_str).collect();
    assert!(labels.contains(&"m.pre_attn (PreAttnLocalWorklet)"));
    assert!(labels.contains(&"m.attn (AttnLocalWorklet)"));
    assert_eq!(labels.len(), 2);
}

fn leaf(time_ms: f32, flops: f32, bytes: f32) -> LeafMetrics<F> {
    LeafMetrics {
        m: Metrics4 { time_ms: F(time_ms), flops: F(flops), bytes: F(bytes), energy_j: F(0.0) },
        coverage: CoverageFlags::empty(),
        backend_index: NO_BACKEND,
    }
}

#[test]
fn manifest_round_trips_and_reproduces_total() {
    let tree = sample();
    let back = tree.manifest();
    let buf = vec![
        leaf(1.0, 0.0, 0.0),
        leaf(2.0, 0.0, 0.0),
        leaf(3.0, 0.0, 0.0),
        leaf(4.0, 0.0, 0.0),
    ];
    let mut scratch = Vec::new();
    let from_manifest = CostTree::aggregate(&back.nodes, &buf, &mut scratch).m.time_ms;
    let direct = CostTree::aggregate(&tree.flatten(), &buf, &mut scratch).m.time_ms;
    assert_eq!(from_manifest, direct);
    assert_eq!(from_manifest, F(1.0 + 3.0 * (2.0 + 3.0) + 4.0));
    assert!(back.nodes.iter().any(|n| matches!(n, FlatCostNode::Scale { n: 3, .. })));
    assert_eq!(back.slots.len(), 4);
}

#[test]
fn aggregate_folds_scale_and_sums_siblings() {
    let flat = sample().flatten();
    let buf = vec![
        leaf(1.0, 10.0, 100.0),
        leaf(2.0, 20.0, 200.0),
        leaf(3.0, 30.0, 300.0),
        leaf(4.0, 40.0, 400.0),
    ];
    let mut scratch = Vec::new();
    let total = CostTree::aggregate(&flat, &buf, &mut scratch).m;
    assert_eq!(total.time_ms, F(1.0 + 3.0 * (2.0 + 3.0) + 4.0));
    assert_eq!(total.flops, F(10.0 + 3.0 * (20.0 + 30.0) + 40.0));
    assert_eq!(total.bytes, F(100.0 + 3.0 * (200.0 + 300.0) + 400.0));
}

#[test]
fn an_empty_flat_form_costs_nothing_and_leaves_the_scratch_alone() {
    let mut scratch = vec![leaf(1.0, 2.0, 3.0)];
    let total = CostTree::aggregate(&vec![], &vec![], &mut scratch);
    assert_eq!(total.m.time_ms, F(0.0));
    assert_eq!(total.m.flops, F(0.0));
    assert_eq!(scratch.len(), 1);
    assert_eq!(scratch[0].m.time_ms, F(1.0));
}

#[test]
fn a_deeper_description_is_the_same_behind_bars() {
    let plain = sample();
    let lines = plain.describe().lines().count();
    assert_eq!(lines, 7);
    let shallow = plain.describe();
    let mut deep = sample();
    deep.root = CostNode::Labeled {
        label: "outer".to_string(),
        child: Box::new(CostNode::Scale { n: 2, child: Box::new(deep.root) }),
    };
    let mut expected = "outer\n│  Scale{n=2}\n".to_string();
    for line in shallow.lines() {
        expected.push_str("│  │  ");
        expected.push_str(line);
        expected.push('\n');
    }
    assert_eq!(deep.describe(), expected);
}

#[test]
fn aggregate_max_takes_slowest_time_but_sums_work() {
    let mut b = CostTreeBuilder::new();
    let root = CostNode::Max {
        children: vec![b.leaf("x", "kx", "", vec![]), b.leaf("y", "ky", "", vec![])],
    };
    let tree = b.finish(root);
    assert!(tree.describe().starts_with("Max\n"));
    let flat = tree.flatten();
    assert!(matches!(flat[0], FlatCostNode::Max { .. }));
    let buf = vec![leaf(4.0, 10.0, 100.0), leaf(6.0, 20.0, 200.0)];
    let mut scratch = Vec::new();
    let total = CostTree::aggregate(&flat, &buf, &mut scratch).m;
    assert_eq!(total.time_ms, F(6.0));
    assert_eq!(total.flops, F(30.0));
    assert_eq!(total.bytes, F(300.0));
}

#[test]
fn aggregate_unions_coverage_flags_up_the_tree() {
    let flat = sample().flatten();
    let mut buf = vec![
        leaf(1.0, 0.0, 0.0),
        leaf(2.0, 0.0, 0.0),
        leaf(3.0, 0.0, 0.0),
        leaf(4.0, 0.0, 0.0),
    ];
    buf[2].coverage = CoverageFlags::extrapolated();
    let mut scratch = Vec::new();
    let total = CostTree::aggregate(&flat, &buf, &mut scratch);
    assert!(total.coverage.contains(CoverageFlags::extrapolated()));
    buf[2].coverage = CoverageFlags::empty();
    assert!(CostTree::aggregate(&flat, &buf, &mut scratch).coverage.is_empty());
}

#[test]
fn only_leaves_name_a_backend() {
    let mut leaves = vec![leaf(1.0, 0.0, 0.0); 4];
    leaves[0].backend_index = 3;
    let mut scratch = Vec::new();
    let flat = sample().flatten();
    assert_eq!(CostTree::aggregate(&flat, &leaves, &mut scratch).backend_index, NO_BACKEND);
    let alone = vec![FlatCostNode::Leaf(0)];
    assert_eq!(CostTree::aggregate(&alone, &leaves, &mut scratch).backend_index, 3);
}

#[test]
fn flatten_child_ranges_are_contiguous_and_forward() {
    let nodes = sample().flatten();
    let FlatCostNode::Sum { children } = &nodes[0] else {
        panic!("root must be Sum, got {:?}", nodes[0]);
    };
    assert_eq!(children.len(), 3);
    assert!(children.start > 0, "children come after the parent");
    let scales = nodes.iter().filter(|n| matches!(n, FlatCostNode::Scale { n: 3, .. })).count();
    assert_eq!(scales, 1);
    let leaves = nodes.iter().filter(|n| matches!(n, FlatCostNode::Leaf(_))).count();
    assert_eq!(leaves, 4);
    for (i, node) in nodes.iter().enumerate() {
        let range = match node {
            FlatCostNode::Sum { children }
            | FlatCostNode::Max { children, .. }
            | FlatCostNode::Scale { children, .. } => *children,
            FlatCostNode::Leaf(_) => continue,
        };
        assert!(range.start > i, "parent {i} precedes its children {range:?}");
        assert!(range.end <= nodes.len(), "child range {range:?} in bounds");
    }
}

#[test]
fn labels_cost_nothing() {
    let mut b = CostTreeBuilder::new();
    let inner = b.leaf("a", "k", "", vec![]);
    let plain = b.finish(CostNode::Sum(vec![inner]));
    let mut b = CostTreeBuilder::new();
    let inner = b.leaf("a", "k", "", vec![]);
    let labelled = b.finish(CostNode::Labeled {
        label: "x".to_string(),
        child: Box::new(CostNode::Sum(vec![inner])),
    });
    assert_eq!(plain.flatten(), labelled.flatten());
}

#[test]
fn flat_forms_from_elsewhere_can_be_checked() {
    assert!(is_well_laid(&sample().flatten(), 4));
    assert!(!is_well_laid(&sample().flatten(), 3));
    let looped = vec![FlatCostNode::Sum { children: Span { start: 0, end: 1 } }];
    assert!(!is_well_laid(&looped, 1));
}

#[test]
fn documents_collect_sections() {
    let mut doc = CostManifestDoc::empty();
    assert!(doc.sections.is_empty());
    doc.push("attn".to_string(), sample().manifest());
    doc.push("ffn".to_string(), sample().manifest());
    assert_eq!(doc.sections.len(), 2);
    assert_eq!(doc.sections[1].section, "ffn");
    let single = CostManifestDoc::single("main".to_string(), sample().manifest());
    assert_eq!(single.sections[0].manifest, sample().manifest());
}

#[test]
fn an_evaluator_fills_the_slots_in_order() {
    let buf = vec![LeafMetrics::<F>::zero(); 2];
    let mut evaluator: Evaluator<F, u32> = Evaluator::with_inputs(buf.clone());
    evaluator.push(leaf(1.0, 0.0, 0.0), || 7);
    evaluator.push(leaf(2.0, 0.0, 0.0), || 8);
    assert_eq!(evaluator.filled(), 2);
    let (metrics, inputs) = evaluator.finish();
    assert_eq!(metrics[1].m.time_ms, F(2.0));
    assert_eq!(inputs, Some(vec![7, 8]));

    let mut evaluator: Evaluator<F, u32> = Evaluator::new(buf);
    evaluator.push(leaf(1.0, 0.0, 0.0), || panic!("inputs are not kept"));
    assert_eq!(evaluator.finish().1, None);
}

#[test]
fn from_missing_count_rejects_impossible_counts() {
    let refused = JitPlan::from_missing_count("single_gemm", "gemm", "torch", 1, 2);
    assert!(matches!(refused, Err(BuildError::FitFailed { .. })));
    match refused {
        Err(BuildError::FitFailed { kind, reason }) => {
            assert_eq!(kind, "single_gemm");
            assert_eq!(reason, "count_missing returned 2 missing rows for 1 specs");
        }
        other => panic!("unexpected outcome {other:?}"),
    }
}

#[test]
fn a_missing_count_becomes_a_leaf() {
    let plan = JitPlan::from_missing_count("single_gemm", "gemm", "torch", 5, 2).unwrap();
    assert_eq!(plan, JitPlan::leaf("gemm.torch".to_string(), "torch", 3, 2));
    assert_eq!(plan.total_specs, 5);
}

#[test]
fn jit_plan_sum_rolls_up_backend_counts() {
    let plan = JitPlan::sum(
        "model".to_string(),
        vec![
            JitPlan::leaf("a".to_string(), "torch", 3, 1),
            JitPlan::leaf("b".to_string(), "torch", 2, 4),
            JitPlan::leaf("c".to_string(), "triton", 5, 0),
        ],
    );

    assert_eq!(plan.total_specs, 15);
    assert_eq!(plan.cached, 10);
    assert_eq!(plan.missing, 5);
    assert_eq!(plan.per_backend.len(), 2);
    assert_eq!(plan.per_backend[0].backend, "torch");
    assert_eq!(plan.per_backend[0].cached, 5);
    assert_eq!(plan.per_backend[0].missing, 5);
    assert_eq!(plan.per_backend[1].backend, "triton");
    assert_eq!(plan.per_backend[1].cached, 5);
    assert_eq!(plan.per_backend[1].missing, 0);
    assert_eq!(aggregate_backend_plans(&plan.breakdown), plan.per_backend);
}
