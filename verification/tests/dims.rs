//! Dimensions: folded values, formulas and identity; texts and sweeps.

use std::collections::hash_map::DefaultHasher;
use std::hash::{Hash, Hasher};
use timing::dims::Dim;
use timing::expert_demand::{ExpertDemand, Fold, PreparedDemand, TokenCorpusConfig, FOLD_SEED};
use timing::sweep::{ascending, Axis, SweepGrid};
use timing::text_map::TextMap;

fn hash_of(d: &Dim) -> u64 {
    let mut h = DefaultHasher::new();
    d.hash(&mut h);
    h.finish()
}

#[test]
fn folds_value_through_arithmetic() {
    let qo = Dim::param("num_qo_heads", 32);
    let kv = Dim::param("num_kv_heads", 8);
    let head = Dim::param("head_dim", 128);
    let qkv_n = (qo + 2 * kv) * head;
    assert_eq!(qkv_n.get(), (32 + 2 * 8) * 128);
}

#[test]
fn bindings_maps_each_named_input_to_its_value() {
    let qo = Dim::param("num_qo_heads", 64);
    let kv = Dim::param("num_kv_heads", 4);
    let head = Dim::param("head_dim", 128);
    let tp = Dim::param("attn_tp", 4);
    let n = (qo / tp.clone() + 2 * kv / tp) * head;
    let b = n.bindings();
    assert_eq!(b.get("num_qo_heads"), Some(&64));
    assert_eq!(b.get("num_kv_heads"), Some(&4));
    assert_eq!(b.get("attn_tp"), Some(&4));
    assert_eq!(b.get("head_dim"), Some(&128));
    assert_eq!(b.len(), 4);
}

#[test]
fn display_renders_precedence_aware_formula() {
    let qo = Dim::param("num_qo_heads", 32);
    let kv = Dim::param("num_kv_heads", 8);
    let head = Dim::param("head_dim", 128);
    let qkv_n = (qo + 2 * kv) * head;
    assert_eq!(qkv_n.formula(), "(num_qo_heads+2*num_kv_heads)*head_dim");
    assert_eq!(qkv_n.labelled(), "(num_qo_heads+2*num_kv_heads)*head_dim=6144");
}

#[test]
fn const_debug_is_bare_number() {
    assert_eq!(Dim::lit(16).labelled(), "16");
    assert_eq!(Dim::param("hidden", 4096).labelled(), "hidden=4096");
}

#[test]
fn identity_is_value_based_ignoring_provenance() {
    let via_expr = Dim::param("hidden", 4096) + 0;
    let via_param = Dim::param("something_else", 4096);
    let via_lit = Dim::lit(4096);
    assert_eq!(via_expr, via_param);
    assert_eq!(via_param, via_lit);
    assert_eq!(hash_of(&via_expr), hash_of(&via_lit));
    assert_eq!(hash_of(&via_param), hash_of(&via_lit));
}

#[test]
fn order_goes_by_value_whatever_the_formula() {
    let product = Dim::param("heads", 64) * Dim::lit(2);
    let plain = Dim::lit(128);
    let small = Dim::param("hidden", 4096) / Dim::lit(64);
    assert_eq!(product.cmp(&plain), std::cmp::Ordering::Equal);
    assert_eq!(small.cmp(&product), std::cmp::Ordering::Less);
    assert_eq!(product.cmp(&small), plain.cmp(&small));
    assert_eq!(plain.cmp(&small), std::cmp::Ordering::Greater);
    assert_eq!(product.partial_cmp(&small), Some(product.cmp(&small)));
    assert!(product == plain && small < plain);
    assert_eq!(hash_of(&product), hash_of(&plain));
}

#[test]
fn compares_against_raw_u32() {
    let n = (Dim::param("num_qo_heads", 32) + 2 * Dim::param("num_kv_heads", 8))
        * Dim::param("head_dim", 128);
    assert_eq!(n, 6144);
    assert_eq!(6144, n);
}

#[test]
fn division_folds_and_records() {
    let heads = Dim::param("num_qo_heads", 32);
    let per_rank = heads / 8u32;
    assert_eq!(per_rank.get(), 4);
    assert_eq!(per_rank.formula(), "num_qo_heads/8");
}

#[test]
fn params_collects_only_named_leaves() {
    let n = (Dim::param("num_qo_heads", 32) + 2 * Dim::param("num_kv_heads", 8))
        * Dim::param("head_dim", 128);
    let ps = n.params();
    assert!(ps.contains(&"num_qo_heads".to_string()));
    assert!(ps.contains(&"num_kv_heads".to_string()));
    assert!(ps.contains(&"head_dim".to_string()));
    assert_eq!(ps.len(), 3);
}

#[test]
fn the_wire_parts_of_a_dimension_are_its_value_formula_and_bindings() {
    let d = Dim::param("hidden", 4096);
    assert_eq!(d.get(), 4096);
    assert_eq!(d.formula(), "hidden");
    assert_eq!(d.bindings().entries(), &vec![("hidden".to_string(), 4096)]);
    assert!(!d.is_literal());
    assert!(Dim::from(2048u32).is_literal());
}

#[test]
fn only_weaker_operators_are_bracketed() {
    let a = Dim::param("a", 10);
    let b = Dim::param("b", 4);
    let c = Dim::param("c", 2);
    assert_eq!((a.clone() - (b.clone() - c.clone())).formula(), "a-b-c");
    assert_eq!((a.clone() - (b.clone() - c.clone())).get(), 8);
    assert_eq!((a.clone() / (b.clone() - c.clone())).formula(), "a/(b-c)");
    assert_eq!((a.clone() / (b.clone() * c.clone())).formula(), "a/b*c");
    assert_eq!((20 - a.clone()).get(), 10);
    assert_eq!((40 / a.clone()).get(), 4);
    assert!(b < a);
    assert_eq!(1 + c, 3);
}

#[test]
fn the_last_binding_of_a_name_is_kept() {
    let mut map = TextMap::new();
    map.insert("b", 1u32);
    map.insert("a", 2);
    map.insert("b", 3);
    assert_eq!(map.entries(), &vec![("a".to_string(), 2), ("b".to_string(), 3)]);
    assert_eq!(map.get("c"), None);
    assert!(TextMap::<u32>::new().is_empty());
}

#[test]
fn axes_are_chained_without_repeats() {
    assert_eq!(Axis::pow2(0, 4), vec![1, 2, 4, 8, 16]);
    assert_eq!(Axis::arithmetic(128, 1024, 128).len(), 8);
    assert_eq!(Axis::chain(vec![8, 4], &vec![4, 2, 8, 16]), vec![8, 4, 2, 16]);
    assert_eq!(Axis::up_to(&vec![1, 9, 3, 4], 4), vec![1, 3, 4]);
    assert_eq!(ascending(&vec![5, 1, 5, 3]), vec![1, 3, 5]);
}

#[test]
fn the_last_axis_of_a_grid_varies_fastest() {
    let grid = SweepGrid::new(vec![vec![1, 2], vec![10, 20, 30]]);
    assert_eq!(grid.len(), 6);
    assert_eq!(grid.cell(0), vec![1, 10]);
    assert_eq!(grid.cell(2), vec![1, 30]);
    assert_eq!(grid.cell(3), vec![2, 10]);
    assert_eq!(SweepGrid::new(vec![vec![1, 2], vec![]]).len(), 0);
}

fn folds() -> Vec<Fold> {
    vec![Fold { top_k: 8, num_tokens: 24, experts_per_rank: 16, counts: vec![3; 64] }]
}

#[test]
fn popularity_folds_every_assignment_and_is_reproducible() {
    let prepared = PreparedDemand::prepare(folds());
    let folded = prepared.sample_and_fold(8, 24, 16).unwrap();
    assert_eq!(folded.len(), 64);
    assert_eq!(folded.iter().map(|&c| u64::from(c)).sum::<u64>(), 24 * 8);
    assert_eq!(Some(folded), prepared.sample_and_fold(8, 24, 16));
    assert_eq!(prepared.sample_and_fold(8, 25, 16), None);
}

#[test]
fn popularity_leaves_the_token_axis_alone() {
    let base = vec![1, 4, 8];
    let demand = ExpertDemand::popularity(vec![vec![15_625; 64]; 4]);
    assert_eq!(demand.token_axis(base.clone()), base);
    assert_eq!(demand.num_experts(), 64);
}

fn corpus(group_size: u32) -> TokenCorpusConfig {
    TokenCorpusConfig {
        data_file: "corpus.bin".to_string(),
        checksum_fnv1a64: 1,
        num_experts: 256,
        group_size,
        seed: 7,
        first_layer: 0,
        end_layer: 4,
        sampling_candidates: 16,
    }
}

#[test]
fn every_source_folds_at_the_shared_seed() {
    assert_eq!(FOLD_SEED, 0xF01D_5EED);
    let expected = TokenCorpusConfig { seed: 0xF01D_5EED, ..corpus(8) };
    assert_eq!(ExpertDemand::corpus(corpus(8)), ExpertDemand::Corpus(expected));
    assert_eq!(ExpertDemand::corpus(corpus(8)).fold_seed(), FOLD_SEED);
    assert_eq!(ExpertDemand::popularity(vec![vec![1, 2]; 3]).fold_seed(), FOLD_SEED);
    assert_eq!(ExpertDemand::popularity_summed(vec![1, 2]).fold_seed(), FOLD_SEED);
    assert_eq!(ExpertDemand::Corpus(corpus(8)).fold_seed(), 7);
}

#[test]
fn corpus_widens_the_token_axis_to_verify_width_multiples() {
    let demand = ExpertDemand::corpus(corpus(8));
    let axis = demand.token_axis(vec![1, 32]);
    assert_eq!(axis[..2], [1, 32], "the base axis comes first, in order");
    for multiple in 1..=8 {
        assert!(axis.contains(&(8 * multiple)), "{multiple} verify blocks must be profiled");
    }
    assert_eq!(demand.num_experts(), 256);
}
