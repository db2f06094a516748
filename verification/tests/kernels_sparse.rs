//! Sparse attention kernels: configurations, sweeps and wire payloads.

use serde_json::Value;
use std::collections::BTreeSet;
use timing::bridge::payload::{ArgsPayload, DType, PayloadValue, Real};
use timing::cache::{CacheKind, Extrapolation};
use timing::dims::Dim;
use timing::kernels::compact_counts::encode_vector;
use timing::kernels::config::{ConfigValue, KernelConfig};
use timing::kernels::deepseek_v4_fused_inv_rope_fp8_quant::{
    DeepseekV4FusedInvRopeFp8QuantKernelConfig, DeepseekV4FusedInvRopeFp8QuantSpec,
};
use timing::kernels::deepseek_v4_fused_q_kv_rmsnorm::{
    DeepseekV4FusedQKvRmsnormKernelConfig, DeepseekV4FusedQKvRmsnormSpec,
};
use timing::kernels::deepseek_v4_packed_cache_gather::DeepseekV4PackedCacheGatherKernelInput;
use timing::kernels::deepseek_v4_qnorm_rope_kv_insert::{
    DeepseekV4QnormRopeKvInsertKernelConfig, DeepseekV4QnormRopeKvInsertKernelInput,
    DeepseekV4QnormRopeKvInsertSpec,
};
use timing::kernels::deepseek_v4_sparse_attn_compress_store::DeepseekV4SparseAttnCompressStoreKernelInput;
use timing::kernels::deepseek_v4_sparse_mla_decode::DeepseekV4SparseMlaDecodeKernelInput;
use timing::kernels::deepseek_v4_sparse_mla_prefill::DeepseekV4SparseMlaPrefillKernelInput;
use timing::kernels::dsa_sparse_index_remap::{
    DsaSparseIndexRemapKernelConfig, DsaSparseIndexRemapKernelInput, DsaSparseIndexRemapSpec,
    DsaSparseIndexRemapWorkspacePartition,
};
use timing::kernels::dsa_sparse_mla_attention::{
    canonical_speculative_counts, canonical_valid_counts, causal_cache_axis, causal_query_axis,
    pair_cache_axis, pair_query_axis,
    speculative_cache_axis, speculative_query_axis, uniform_cache_axis, uniform_query_axis,
    DsaSparseMlaAttentionKernelConfig, DsaSparseMlaAttentionKernelInput, DsaSparseMlaAttentionSpec,
    ValidCountsPattern,
};
use timing::kernels::dsa_sparse_mla_prefill::{
    DsaSparseMlaPrefillKernelConfig, DsaSparseMlaPrefillKernelInput, DsaSparseMlaPrefillSpec,
};
use timing::kernels::engine::{CellPayloads, KernelSpec, SweepCoords};
use timing::sweep::{Ratio, SweepGrid};

/// A stand-in for the token axis that kernels share.
fn tokens() -> Vec<u32> {
    let mut points = vec![32, 64, 128, 256];
    points.extend((384..=4096).step_by(128));
    points.extend((4352..=8192).step_by(256));
    points.extend((9216..=16384).step_by(1024));
    points.extend([20480, 24576, 32768, 49152, 65536]);
    points
}

/// A sweep with its axes as real numbers.
struct Grid {
    inner: SweepGrid,
    axes: Vec<Vec<f64>>,
}

impl Grid {
    fn new(inner: SweepGrid) -> Self {
        let units = inner.units().clone();
        let axes = inner
            .axes()
            .iter()
            .zip(units)
            .map(|(axis, unit)| axis.iter().map(|&x| f64::from(x) / f64::from(unit)).collect())
            .collect();
        Grid { inner, axes }
    }

    fn axes(&self) -> &Vec<Vec<f64>> {
        &self.axes
    }
}

fn sweep<K: KernelSpec>(config: &K::Config) -> Grid {
    Grid::new(K::sweep_grid(config, &tokens()))
}

fn mask_of<K: KernelSpec>(config: &K::Config, grid: &Grid) -> Vec<bool> {
    K::infeasible_mask(config, &grid.inner)
}

/// A wire payload with its fields as JSON.
struct Wire {
    payload: ArgsPayload,
    fields: serde_json::Map<String, Value>,
}

impl Wire {
    fn new(payload: ArgsPayload) -> Self {
        let fields = payload
            .fields()
            .entries()
            .iter()
            .map(|(name, value)| (name.clone(), wire_value(value)))
            .collect();
        Wire { payload, fields }
    }

    fn fields(&self) -> &serde_json::Map<String, Value> {
        &self.fields
    }

    fn backend(&self) -> Option<&str> {
        self.payload.backend()
    }
}

fn real_value(real: &Real) -> f64 {
    match real {
        Real::Bits(bits) => f64::from_bits(*bits),
        Real::Reciprocal(n) => 1.0 / f64::from(*n),
        Real::ReciprocalRoot(n) => 1.0 / f64::from(*n).sqrt(),
    }
}

fn wire_value(value: &PayloadValue) -> Value {
    match value {
        PayloadValue::Flag(flag) => Value::from(*flag),
        PayloadValue::Number(number) => Value::from(*number),
        PayloadValue::Real(real) => Value::from(real_value(real)),
        PayloadValue::Text(text) => Value::from(text.as_str()),
        PayloadValue::Numbers(numbers) => Value::from(numbers.clone()),
        PayloadValue::Pairs(pairs) => {
            Value::from(pairs.iter().map(|&(a, b)| vec![a, b]).collect::<Vec<_>>())
        }
    }
}

fn payloads_of<K: CellPayloads>(config: &K::Config, grid: &Grid, backend: &str) -> Vec<Wire> {
    K::enumerate(config, &grid.inner, backend).into_iter().map(Wire::new).collect()
}

fn coords(input: &impl SweepCoords) -> Vec<f64> {
    ratios(input.coords())
}

fn ratios(coords: Vec<Ratio>) -> Vec<f64> {
    coords.into_iter().map(|r| r.numerator as f64 / r.denominator as f64).collect()
}

fn json(text: &str) -> Value {
    serde_json::from_str(text).unwrap()
}

fn dimension_value(dim: &Dim) -> Value {
    let mut bindings = serde_json::Map::new();
    for (name, value) in dim.bindings().entries() {
        bindings.insert(name.clone(), Value::from(*value));
    }
    let mut fields = serde_json::Map::new();
    fields.insert("value".to_string(), Value::from(dim.get()));
    let expression = if dim.is_literal() { Value::Null } else { Value::from(dim.formula()) };
    fields.insert("expression".to_string(), expression);
    fields.insert("bindings".to_string(), Value::Object(bindings));
    Value::Object(fields)
}

fn config_value(value: &ConfigValue) -> Value {
    match value {
        ConfigValue::Text(text) => Value::from(text.as_str()),
        ConfigValue::Number(number) => Value::from(*number),
        ConfigValue::Flag(flag) => Value::from(*flag),
        ConfigValue::Precision(dtype) => Value::from(dtype.as_str()),
        ConfigValue::Link(fabric) => Value::from(fabric.as_str()),
        ConfigValue::Dimension(dim) => dimension_value(dim),
        ConfigValue::Names(names) => Value::from(names.clone()),
        ConfigValue::Numbers(numbers) => Value::from(numbers.clone()),
        ConfigValue::Lists(lists) => Value::from(lists.clone()),
        ConfigValue::Corpus(corpus) => Value::from(corpus.data_file.as_str()),
        ConfigValue::Variant { tag, fields } if fields.is_empty() => Value::from(*tag),
        ConfigValue::Variant { tag, fields } => {
            let mut inner = serde_json::Map::new();
            for (name, number) in fields {
                inner.insert(name.to_string(), Value::from(*number));
            }
            let mut outer = serde_json::Map::new();
            outer.insert(tag.to_string(), Value::Object(inner));
            Value::Object(outer)
        }
    }
}

fn described<C: KernelConfig>(config: &C) -> Value {
    let mut fields = serde_json::Map::new();
    for field in config.describe_config() {
        fields.insert(field.name.to_string(), config_value(&field.value));
    }
    Value::Object(fields)
}


fn dsa_sparse_index_remap_config() -> DsaSparseIndexRemapKernelConfig {
    DsaSparseIndexRemapKernelConfig {
        backends: vec!["vllm_triton"],
        gpu_name: "NVIDIA B200".to_string(),
        selected_k: 2048,
        block_size: 64,
        max_blocks_per_request: 16_384,
        index_distribution: "recent_contiguous".to_string(),
        page_table_mapping: "request_contiguous".to_string(),
        return_valid_counts: true,
        index_dtype: "int32".to_string(),
    }
}

#[test]
fn ragged_input_preserves_workspace_topology() {
    let input = DsaSparseIndexRemapKernelInput {
        request_row_counts: vec![8, 16],
        local_span_lengths: vec![128; 8].into_iter().chain(vec![256; 16]).collect(),
        valid_counts: vec![128; 8].into_iter().chain(vec![256; 16]).collect(),
        workspace_partition: Some(DsaSparseIndexRemapWorkspacePartition {
            decode_requests: 1,
            chunk_sizes: vec![1],
        }),
    };
    assert_eq!(coords(&input)[0], 24.0);
    assert!((coords(&input)[1] - 213.333_333_333_333_34).abs() < 1e-12);
    assert_eq!(coords(&input)[2], 16.0);
}

#[test]
fn dsa_sparse_index_remap_canonical_payload_matches_python_schema() {
    let config = dsa_sparse_index_remap_config();
    let grid = Grid::new(SweepGrid::new(vec![
        vec![24],
        vec![512],
        vec![8],
    ]));
    let payload = &payloads_of::<DsaSparseIndexRemapSpec>(&config, &grid, "vllm_triton")[0];
    let fields = payload.fields();

    assert_eq!(fields.len(), 14);
    assert_eq!(fields.get("num_queries"), Some(&Value::from(24_u32)));
    assert_eq!(fields.get("num_requests"), Some(&Value::from(2_u32)));
    assert_eq!(
        fields.get("max_blocks_per_request"),
        Some(&Value::from(16_384_u32))
    );
    assert_eq!(
        fields.get("request_row_counts"),
        Some(&Value::from("g:(16,8)x1"))
    );
    assert_eq!(
        fields.get("local_span_lengths"),
        Some(&Value::from("u:512x24"))
    );
    assert_eq!(
        fields.get("workspace_partition"),
        Some(&Value::from("suffix:1@1"))
    );
    assert_eq!(fields.get("return_valid_counts"), Some(&Value::from(true)));
}

#[test]
fn impossible_workspace_shape_is_masked() {
    let config = dsa_sparse_index_remap_config();
    let grid = Grid::new(SweepGrid::new(vec![
        vec![8],
        vec![64],
        vec![24],
    ]));
    assert_eq!(
        mask_of::<DsaSparseIndexRemapSpec>(&config, &grid),
        vec![true]
    );
}

#[test]
fn compact_vector_encoding_matches_python_canonical_forms() {
    assert_eq!(encode_vector(&[7, 7, 7], false, 2048), "u:7x3");
    assert_eq!(encode_vector(&[7, 8, 9], false, 2048), "r:7..9");
    assert_eq!(
        encode_vector(&[2047, 2048, 2048], true, 2048),
        "c:2047..2049@2048"
    );
    assert_eq!(encode_vector(&[2, 4, 2, 4], false, 2048), "g:(2,4)x2");
}

#[test]
fn compact_vector_encoding_tells_vectors_apart() {
    let vectors: Vec<Vec<u32>> = vec![
        vec![7],
        vec![7, 7],
        vec![77],
        vec![7, 8],
        vec![7, 8, 9],
        vec![7, 9],
        vec![9, 9, 10, 10],
        vec![8, 9, 10, 10],
        vec![8, 9, 10, 10, 10],
        vec![2, 4],
        vec![2, 4, 2, 4],
        vec![24, 2, 4],
        vec![2, 42, 4],
        vec![1, 2, 1, 2, 1],
    ];
    for allow_clipped in [false, true] {
        for (i, a) in vectors.iter().enumerate() {
            for (j, b) in vectors.iter().enumerate() {
                let alike = encode_vector(a, allow_clipped, 10) == encode_vector(b, allow_clipped, 10);
                assert_eq!(alike, i == j, "{a:?} against {b:?}");
            }
        }
    }
    assert_eq!(encode_vector(&[8, 9, 10, 10], true, 10), "c:8..11@10");
    assert_eq!(encode_vector(&[8, 9, 10, 10], false, 10), "g:(8,9,10,10)x1");
    assert_eq!(encode_vector(&[24, 2, 4], true, 10), "g:(24,2,4)x1");
    let end = u32::MAX;
    assert_eq!(
        encode_vector(&[end - 1, end], false, 10),
        encode_vector(&[end - 1, end, end], false, 10)
    );
}

#[test]
fn speculative_counts_encode_the_whole_vector() {
    for (q, s, k, group_size) in [
        (8, 100, 2048, 4),
        (8, 2, 2048, 4),
        (4, 3, 2048, 4),
        (4, 2, 2048, 4),
        (4, 2049, 2048, 4),
        (8, 2049, 2048, 4),
        (6, 4096, 2048, 3),
        (5, 9, 2048, 1),
        (6, 0, 2048, 2),
    ] {
        let whole: Vec<u32> = (0..q)
            .map(|row: u32| u32::saturating_sub(s, group_size - 1 - row % group_size).min(k))
            .collect();
        assert_eq!(
            canonical_speculative_counts(q, s, k, group_size),
            encode_vector(&whole, true, k)
        );
    }
    assert_eq!(canonical_speculative_counts(8, 2, 2048, 4), "g:(0,0,1,2)x2");
    assert_eq!(canonical_speculative_counts(4, 2049, 2048, 4), "c:2046..2049@2048");
}

const DSA_SPARSE_MLA_ATTENTION_TORCH_BACKEND: &str = "torch";
const DSA_SPARSE_MLA_ATTENTION_FLASHMLA_BACKEND: &str = "vllm_flashmla_bf16";
fn dsa_sparse_mla_attention_config(pattern: ValidCountsPattern) -> DsaSparseMlaAttentionKernelConfig {
    DsaSparseMlaAttentionKernelConfig {
        backends: vec![DSA_SPARSE_MLA_ATTENTION_TORCH_BACKEND, DSA_SPARSE_MLA_ATTENTION_FLASHMLA_BACKEND],
        gpu_name: "NVIDIA H200".to_string(),
        num_heads: Dim::param("num_attention_heads", 64),
        num_kv_heads: Dim::param("num_kv_heads", 1),
        selected_k: 2048,
        latent_dim: Dim::param("kv_lora_rank", 512),
        rope_dim: Dim::param("qk_rope_head_dim", 64),
        value_dim: Dim::param("kv_lora_rank", 512),
        softmax_scale_denominator: 16,
        q_dtype: DType::Bf16,
        cache_dtype: DType::Bf16,
        index_dtype: "int32".to_string(),
        output_dtype: DType::Bf16,
        valid_counts_pattern: pattern,
        index_distribution: "recent_contiguous".to_string(),
        cache_layout: "token_major_mqa_bf16_latent_rope".to_string(),
    }
}

#[test]
fn dsa_sparse_mla_attention_config_kind_and_dtype_identity_match_the_python_handoff() {
    let cfg = dsa_sparse_mla_attention_config(ValidCountsPattern::UniformFull);

    assert_eq!(DsaSparseMlaAttentionSpec::KIND, "dsa_sparse_mla_attention");
    assert_eq!(
        DsaSparseMlaAttentionSpec::profile_kind(),
        "dsa_sparse_mla_attention"
    );
    assert_eq!(cfg.backends(), &[DSA_SPARSE_MLA_ATTENTION_TORCH_BACKEND, DSA_SPARSE_MLA_ATTENTION_FLASHMLA_BACKEND]);
    assert_eq!(cfg.gpu_name(), "NVIDIA H200");
    assert_eq!(cfg.num_heads, 64);
    assert_eq!(cfg.num_kv_heads, 1);
    assert_eq!(cfg.selected_k, 2048);
    assert_eq!(cfg.latent_dim, 512);
    assert_eq!(cfg.rope_dim, 64);
    assert_eq!(cfg.value_dim, 512);
    assert_eq!(cfg.softmax_scale_denominator, 16);
    assert_eq!(cfg.q_dtype, DType::Bf16);
    assert_eq!(cfg.cache_dtype, DType::Bf16);
    assert_eq!(cfg.output_dtype, DType::Bf16);
    assert_eq!(cfg.index_dtype, "int32");
    assert_eq!(cfg.compute_dtype(), Some(DType::Bf16));
    assert_eq!(cfg.kv_dtype(), Some(DType::Bf16));
}

#[test]
fn describe_config_preserves_rich_dimensions_and_static_modes() {
    assert_eq!(
        described(&dsa_sparse_mla_attention_config(ValidCountsPattern::CausalTail)),
        json(r#"{
            "backends": ["torch", "vllm_flashmla_bf16"],
            "gpu_name": "NVIDIA H200",
            "num_heads": {"value": 64, "expression": "num_attention_heads", "bindings": {"num_attention_heads": 64}},
            "num_kv_heads": {"value": 1, "expression": "num_kv_heads", "bindings": {"num_kv_heads": 1}},
            "selected_k": 2048,
            "latent_dim": {"value": 512, "expression": "kv_lora_rank", "bindings": {"kv_lora_rank": 512}},
            "rope_dim": {"value": 64, "expression": "qk_rope_head_dim", "bindings": {"qk_rope_head_dim": 64}},
            "value_dim": {"value": 512, "expression": "kv_lora_rank", "bindings": {"kv_lora_rank": 512}},
            "softmax_scale_denominator": 16,
            "q_dtype": "bf16",
            "cache_dtype": "bf16",
            "index_dtype": "int32",
            "output_dtype": "bf16",
            "valid_counts_pattern": "causal_tail",
            "index_distribution": "recent_contiguous",
            "cache_layout": "token_major_mqa_bf16_latent_rope"
        }"#)
    );
}

#[test]
fn input_coordinates_deserialization_and_slot_input_are_physical() {
    let input = DsaSparseMlaAttentionKernelInput { num_queries: 128, num_cache_tokens: 2049 };

    assert_eq!(coords(&input), &[128.0, 2049.0]);
    assert_eq!(
        DsaSparseMlaAttentionKernelInput::coord_field_names(),
        &["num_queries", "num_cache_tokens"]
    );
}

#[test]
fn grids_have_the_exact_pattern_specific_axes_and_boundaries() {
    dsa_sparse_mla_attention_assert_grid(
        ValidCountsPattern::UniformFull,
        &uniform_query_axis(),
        &uniform_cache_axis(),
        810,
    );
    dsa_sparse_mla_attention_assert_grid(
        ValidCountsPattern::CausalTail,
        &causal_query_axis(),
        &causal_cache_axis(),
        1_517,
    );
    dsa_sparse_mla_attention_assert_grid(
        ValidCountsPattern::SpeculativeGroups { group_size: 2 },
        &pair_query_axis(),
        &pair_cache_axis(),
        620,
    );
    for pattern in [
        ValidCountsPattern::UniformFull,
        ValidCountsPattern::CausalTail,
        ValidCountsPattern::SpeculativeGroups { group_size: 2 },
    ] {
        let grid = sweep::<DsaSparseMlaAttentionSpec>(&dsa_sparse_mla_attention_config(pattern));
        assert_eq!(grid.axes()[0].last(), Some(&65536.0));
        assert_eq!(grid.axes()[1].last(), Some(&1_048_576.0));
    }

    let uniform =
        sweep::<DsaSparseMlaAttentionSpec>(&dsa_sparse_mla_attention_config(ValidCountsPattern::UniformFull));
    dsa_sparse_mla_attention_assert_contiguous(&uniform.axes()[0], &[127, 128, 129]);
    dsa_sparse_mla_attention_assert_contiguous(&uniform.axes()[0], &[131, 132, 133]);
    dsa_sparse_mla_attention_assert_contiguous(&uniform.axes()[0], &[255, 256, 257, 263, 264, 265]);
    dsa_sparse_mla_attention_assert_contiguous(&uniform.axes()[1], &[2, 4, 6, 8, 11, 16]);
    dsa_sparse_mla_attention_assert_contiguous(&uniform.axes()[1], &[65, 91, 127]);
    dsa_sparse_mla_attention_assert_contiguous(&uniform.axes()[1], &[2047, 2048, 2049]);

    let causal = sweep::<DsaSparseMlaAttentionSpec>(&dsa_sparse_mla_attention_config(ValidCountsPattern::CausalTail));
    dsa_sparse_mla_attention_assert_contiguous(&causal.axes()[0], &[1, 2, 3, 4, 6, 8, 11]);
    dsa_sparse_mla_attention_assert_contiguous(&causal.axes()[0], &[127, 128, 129, 130, 131, 132, 133]);
    dsa_sparse_mla_attention_assert_contiguous(&causal.axes()[0], &[254, 255, 256, 257, 258, 263, 264, 265]);
    dsa_sparse_mla_attention_assert_contiguous(&causal.axes()[1], &[127, 128, 129, 130, 182, 200]);
    dsa_sparse_mla_attention_assert_contiguous(&causal.axes()[1], &[255, 256, 260, 511, 512, 513, 724]);
    dsa_sparse_mla_attention_assert_contiguous(&causal.axes()[1], &[2047, 2048, 2049]);

    let speculative =
        sweep::<DsaSparseMlaAttentionSpec>(&dsa_sparse_mla_attention_config(ValidCountsPattern::SpeculativeGroups {
            group_size: 2,
        }));
    assert!(
        speculative.axes()[0]
            .iter()
            .all(|query| *query as u32 % 2 == 0)
    );
    dsa_sparse_mla_attention_assert_contiguous(&speculative.axes()[0], &[128, 132, 134]);
    dsa_sparse_mla_attention_assert_contiguous(&speculative.axes()[0], &[256, 264, 266]);
    dsa_sparse_mla_attention_assert_contiguous(&speculative.axes()[1], &[16, 23, 32, 45, 63]);
    dsa_sparse_mla_attention_assert_contiguous(&speculative.axes()[1], &[129, 182, 256]);
    dsa_sparse_mla_attention_assert_contiguous(&speculative.axes()[1], &[2047, 2048, 2049]);
}

#[test]
fn masks_match_each_frozen_pattern_domain() {
    let uniform_grid =
        sweep::<DsaSparseMlaAttentionSpec>(&dsa_sparse_mla_attention_config(ValidCountsPattern::UniformFull));
    let uniform = dsa_sparse_mla_attention_mask_for(ValidCountsPattern::UniformFull, &uniform_grid);
    dsa_sparse_mla_attention_assert_mask_split(&uniform, 810, 0);

    let causal_grid =
        sweep::<DsaSparseMlaAttentionSpec>(&dsa_sparse_mla_attention_config(ValidCountsPattern::CausalTail));
    let causal = dsa_sparse_mla_attention_mask_for(ValidCountsPattern::CausalTail, &causal_grid);
    dsa_sparse_mla_attention_assert_mask_split(&causal, 858, 659);
    assert!(!dsa_sparse_mla_attention_masked(&causal, &causal_grid, 3, 3));
    assert!(!dsa_sparse_mla_attention_masked(&causal, &causal_grid, 3, 4));
    assert!(dsa_sparse_mla_attention_masked(&causal, &causal_grid, 3, 2));
    assert!(!dsa_sparse_mla_attention_masked(&causal, &causal_grid, 132, 182));
    assert!(dsa_sparse_mla_attention_masked(&causal, &causal_grid, 200, 182));
    assert!(!dsa_sparse_mla_attention_masked(&causal, &causal_grid, 255, 255));
    assert!(dsa_sparse_mla_attention_masked(&causal, &causal_grid, 256, 255));
    assert!(!dsa_sparse_mla_attention_masked(&causal, &causal_grid, 4096, 131072));
    assert!(!dsa_sparse_mla_attention_masked(&causal, &causal_grid, 65536, 1_048_576));
    assert!(dsa_sparse_mla_attention_masked(&causal, &causal_grid, 65536, 32768));

    let speculative_grid =
        sweep::<DsaSparseMlaAttentionSpec>(&dsa_sparse_mla_attention_config(ValidCountsPattern::SpeculativeGroups {
            group_size: 2,
        }));
    let speculative = dsa_sparse_mla_attention_mask_for(
        ValidCountsPattern::SpeculativeGroups { group_size: 2 },
        &speculative_grid,
    );
    dsa_sparse_mla_attention_assert_mask_split(&speculative, 620, 0);
    assert!(!dsa_sparse_mla_attention_masked(&speculative, &speculative_grid, 2, 1));
    assert!(!dsa_sparse_mla_attention_masked(&speculative, &speculative_grid, 32, 2048));
    assert!(!dsa_sparse_mla_attention_masked(&speculative, &speculative_grid, 134, 65536));
    assert!(!dsa_sparse_mla_attention_masked(&speculative, &speculative_grid, 266, 65536));
    assert!(!dsa_sparse_mla_attention_masked(&speculative, &speculative_grid, 4096, 131072));
    assert!(!dsa_sparse_mla_attention_masked(&speculative, &speculative_grid, 65536, 1_048_576));
}

#[test]
fn trtllm_fp8_masks_only_the_rejected_65536_query_row() {
    let mut cfg = dsa_sparse_mla_attention_config(ValidCountsPattern::CausalTail);
    cfg.backends = vec!["flashinfer_trtllm_fp8"];
    let grid = sweep::<DsaSparseMlaAttentionSpec>(&cfg);
    let mask = mask_of::<DsaSparseMlaAttentionSpec>(&cfg, &grid);

    assert!(!dsa_sparse_mla_attention_masked(&mask, &grid, 32768, 1_048_576));
    assert!(dsa_sparse_mla_attention_masked(&mask, &grid, 65536, 1_048_576));
}

const DSA_SPARSE_MLA_ATTENTION_FORK_BACKEND: &str = "flashinfer_trtllm_fp8_vllm_fork";
fn dsa_sparse_mla_attention_pooled_fork_config() -> DsaSparseMlaAttentionKernelConfig {
    DsaSparseMlaAttentionKernelConfig {
        backends: vec![DSA_SPARSE_MLA_ATTENTION_FORK_BACKEND],
        gpu_name: "NVIDIA B200".to_string(),
        num_heads: Dim::param("num_attention_heads", 16),
        num_kv_heads: Dim::param("num_kv_heads", 1),
        selected_k: 2176,
        latent_dim: Dim::param("kv_lora_rank", 512),
        rope_dim: Dim::param("qk_rope_head_dim", 0),
        value_dim: Dim::param("kv_lora_rank", 512),
        softmax_scale_denominator: 16,
        q_dtype: DType::Fp8E4m3,
        cache_dtype: DType::Fp8E4m3,
        index_dtype: "int32".to_string(),
        output_dtype: DType::Bf16,
        valid_counts_pattern: ValidCountsPattern::PooledUniformFull {
            index_topk: 2048,
            index_kpool: 4,
        },
        index_distribution: "unique_scattered_pages".to_string(),
        cache_layout: "hnd_paged_mqa_fp8_latent".to_string(),
    }
}

#[test]
fn pooled_fork_payloads_cap_at_topk_plus_kpool_minus_one() {
    let cfg = dsa_sparse_mla_attention_pooled_fork_config();
    let grid = sweep::<DsaSparseMlaAttentionSpec>(&cfg);
    let payloads = payloads_of::<DsaSparseMlaAttentionSpec>(&cfg, &grid, DSA_SPARSE_MLA_ATTENTION_FORK_BACKEND);

    for (s, expected) in [(1024, 1024), (2048, 2048), (2051, 2051), (4096, 2051)] {
        let fields = dsa_sparse_mla_attention_payload_for(&payloads, &grid, 32, s).fields();
        assert_eq!(
            fields.get("valid_counts"),
            Some(&Value::from(format!("u:{expected}x32")))
        );
    }
    let fields = dsa_sparse_mla_attention_payload_for(&payloads, &grid, 1, 1_048_576).fields();
    assert_eq!(fields.get("valid_counts"), Some(&Value::from("u:2051x1")));
    assert_eq!(
        Value::Object(fields.clone()),
        json(r#"{
            "backend": "flashinfer_trtllm_fp8_vllm_fork",
            "num_queries": 1,
            "num_cache_tokens": 1048576,
            "num_heads": 16,
            "num_kv_heads": 1,
            "selected_k": 2176,
            "latent_dim": 512,
            "rope_dim": 0,
            "value_dim": 512,
            "softmax_scale": 0.0625,
            "q_dtype": "fp8_e4m3",
            "cache_dtype": "fp8_e4m3",
            "index_dtype": "int32",
            "output_dtype": "bf16",
            "valid_counts": "u:2051x1",
            "index_distribution": "unique_scattered_pages",
            "cache_layout": "hnd_paged_mqa_fp8_latent"
        }"#)
    );
    assert_eq!(cfg.compute_dtype(), Some(DType::Fp8E4m3));
    assert_eq!(cfg.kv_dtype(), Some(DType::Fp8E4m3));
}

#[test]
fn pooled_grid_brackets_saturation_within_the_coordinate_ceiling() {
    let cfg = dsa_sparse_mla_attention_pooled_fork_config();
    let grid = sweep::<DsaSparseMlaAttentionSpec>(&cfg);
    dsa_sparse_mla_attention_assert_contiguous(&grid.axes()[1], &[1024, 1536, 2048, 2051, 4096]);
    assert_eq!(grid.axes()[0].last(), Some(&32768.0));
    assert_eq!(grid.axes()[1].last(), Some(&1_048_576.0));
    let mask = mask_of::<DsaSparseMlaAttentionSpec>(&cfg, &grid);
    dsa_sparse_mla_attention_assert_mask_split(&mask, 21 * 23, 0);
}

#[test]
fn pooled_cap_must_fit_the_page_table() {
    let mut cfg = dsa_sparse_mla_attention_pooled_fork_config();
    assert!(DsaSparseMlaAttentionSpec::can_sweep(&cfg));
    cfg.selected_k = 2048;
    assert!(!DsaSparseMlaAttentionSpec::can_sweep(&cfg));
}

#[test]
fn fork_backend_shares_the_trtllm_query_guard() {
    let mut cfg = dsa_sparse_mla_attention_config(ValidCountsPattern::UniformFull);
    cfg.backends = vec![DSA_SPARSE_MLA_ATTENTION_FORK_BACKEND];
    let grid = sweep::<DsaSparseMlaAttentionSpec>(&cfg);
    let mask = mask_of::<DsaSparseMlaAttentionSpec>(&cfg, &grid);
    assert!(!dsa_sparse_mla_attention_masked(&mask, &grid, 32768, 1_048_576));
    assert!(dsa_sparse_mla_attention_masked(&mask, &grid, 65536, 1));

    let pooled = dsa_sparse_mla_attention_pooled_fork_config();
    let synthetic = Grid::new(SweepGrid::new(vec![
        vec![32768, 65536],
        vec![2051],
    ]));
    assert_eq!(
        mask_of::<DsaSparseMlaAttentionSpec>(&pooled, &synthetic),
        vec![false, true]
    );
}

#[test]
fn speculative_odd_query_defense_remains_for_synthetic_grids() {
    let grid = Grid::new(SweepGrid::new(vec![
        vec![2, 3, 4],
        vec![1, 2],
    ]));
    let mask = dsa_sparse_mla_attention_mask_for(
        ValidCountsPattern::SpeculativeGroups { group_size: 2 },
        &grid,
    );

    dsa_sparse_mla_attention_assert_mask_split(&mask, 4, 2);
    assert!(dsa_sparse_mla_attention_masked(&mask, &grid, 3, 1));
    assert!(dsa_sparse_mla_attention_masked(&mask, &grid, 3, 2));
    assert_eq!(
        canonical_valid_counts(
            ValidCountsPattern::SpeculativeGroups { group_size: 2 },
            3,
            2,
            2048
        ),
        "u:0x3"
    );
}

#[test]
fn canonical_valid_counts_obeys_python_precedence_for_every_pattern() {
    assert_eq!(
        canonical_valid_counts(ValidCountsPattern::UniformFull, 1, 1, 2048),
        "u:1x1"
    );
    assert_eq!(
        canonical_valid_counts(ValidCountsPattern::UniformFull, 256, 131072, 2048),
        "u:2048x256"
    );

    assert_eq!(
        canonical_valid_counts(ValidCountsPattern::CausalTail, 1, 1, 2048),
        "u:1x1"
    );
    assert_eq!(
        canonical_valid_counts(ValidCountsPattern::CausalTail, 128, 128, 2048),
        "r:1..128"
    );
    assert_eq!(
        canonical_valid_counts(ValidCountsPattern::CausalTail, 128, 2048, 2048),
        "r:1921..2048"
    );
    assert_eq!(
        canonical_valid_counts(ValidCountsPattern::CausalTail, 128, 2049, 2048),
        "c:1922..2049@2048"
    );
    assert_eq!(
        canonical_valid_counts(ValidCountsPattern::CausalTail, 128, 4096, 2048),
        "u:2048x128"
    );
    assert_eq!(
        canonical_valid_counts(ValidCountsPattern::CausalTail, 4096, 1, 2048),
        "u:0x4096"
    );

    assert_eq!(
        canonical_valid_counts(
            ValidCountsPattern::SpeculativeGroups { group_size: 2 },
            2,
            1,
            2048
        ),
        "r:0..1"
    );
    assert_eq!(
        canonical_valid_counts(
            ValidCountsPattern::SpeculativeGroups { group_size: 2 },
            32,
            2048,
            2048
        ),
        "g:(2047,2048)x16"
    );
    assert_eq!(
        canonical_valid_counts(
            ValidCountsPattern::SpeculativeGroups { group_size: 2 },
            2,
            2049,
            2048
        ),
        "u:2048x2"
    );
    assert_eq!(
        canonical_valid_counts(
            ValidCountsPattern::SpeculativeGroups { group_size: 2 },
            127,
            2048,
            2048
        ),
        "u:0x127"
    );
    assert_eq!(
        canonical_valid_counts(
            ValidCountsPattern::SpeculativeGroups { group_size: 6 },
            6,
            5,
            2048
        ),
        "r:0..5"
    );
    assert_eq!(
        canonical_valid_counts(
            ValidCountsPattern::SpeculativeGroups { group_size: 6 },
            6,
            2043,
            2048
        ),
        "r:2038..2043"
    );
    assert_eq!(
        canonical_valid_counts(
            ValidCountsPattern::SpeculativeGroups { group_size: 6 },
            6,
            2049,
            2048
        ),
        "c:2044..2049@2048"
    );
    assert_eq!(
        canonical_valid_counts(
            ValidCountsPattern::SpeculativeGroups { group_size: 6 },
            6,
            3,
            2048
        ),
        "g:(0,0,0,1,2,3)x1"
    );
    assert_eq!(
        canonical_valid_counts(
            ValidCountsPattern::SpeculativeGroups { group_size: 6 },
            12,
            2048,
            2048
        ),
        "g:(2043,2044,2045,2046,2047,2048)x2"
    );
    assert_eq!(
        canonical_valid_counts(
            ValidCountsPattern::SpeculativeGroups { group_size: 6 },
            12,
            2049,
            2048
        ),
        "g:(2044,2045,2046,2047,2048,2048)x2"
    );
    assert_eq!(
        canonical_valid_counts(
            ValidCountsPattern::SpeculativeGroups { group_size: 6 },
            12,
            4096,
            2048
        ),
        "u:2048x12"
    );
    assert_eq!(
        canonical_valid_counts(
            ValidCountsPattern::SpeculativeGroups { group_size: 6 },
            7,
            4096,
            2048
        ),
        "u:0x7"
    );
}

#[test]
fn group_two_keeps_its_frozen_axes_and_bytes() {
    assert_eq!(speculative_query_axis(2), pair_query_axis());
    assert_eq!(speculative_cache_axis(2, 2048), pair_cache_axis());
    for &num_queries in pair_query_axis().iter() {
        for &num_cache_tokens in pair_cache_axis().iter() {
            let first = num_cache_tokens.saturating_sub(1).min(2048);
            let second = num_cache_tokens.min(2048);
            let expected = if first == second {
                format!("u:{first}x{num_queries}")
            } else if num_queries == 2 {
                format!("r:{first}..{second}")
            } else {
                format!("g:({first},{second})x{}", num_queries / 2)
            };
            assert_eq!(
                canonical_valid_counts(
                    ValidCountsPattern::SpeculativeGroups { group_size: 2 },
                    num_queries,
                    num_cache_tokens,
                    2048
                ),
                expected,
                "group-two identity drifted at ({num_queries}, {num_cache_tokens})"
            );
        }
    }
}

#[test]
fn group_six_grid_anchors_requests_and_pins_its_transitions() {
    let cfg = dsa_sparse_mla_attention_config(ValidCountsPattern::SpeculativeGroups { group_size: 6 });
    let grid = sweep::<DsaSparseMlaAttentionSpec>(&cfg);

    assert_eq!(grid.axes()[0].len(), pair_query_axis().len());
    assert_eq!(grid.axes()[0][0], 6.0);
    assert_eq!(grid.axes()[0].last(), Some(&196_608.0));
    assert!(grid.axes()[0].iter().all(|q| *q as u32 % 6 == 0));
    for (index, &num_queries) in pair_query_axis().iter().enumerate() {
        assert_eq!(grid.axes()[0][index], f64::from(num_queries / 2 * 6));
    }
    assert_eq!(grid.axes()[1].len(), pair_cache_axis().len() + 7);
    dsa_sparse_mla_attention_assert_contiguous(&grid.axes()[1], &[4, 5, 6, 7, 8]);
    dsa_sparse_mla_attention_assert_contiguous(&grid.axes()[1], &[1024, 2043, 2047, 2048, 2049]);
    dsa_sparse_mla_attention_assert_contiguous(&grid.axes()[1], &[2049, 2052, 2053, 2054, 4096]);
    assert_eq!(grid.axes()[1].last(), Some(&1_048_576.0));

    let mask = dsa_sparse_mla_attention_mask_for(
        ValidCountsPattern::SpeculativeGroups { group_size: 6 },
        &grid,
    );
    dsa_sparse_mla_attention_assert_mask_split(&mask, 760, 0);

    let payloads = payloads_of::<DsaSparseMlaAttentionSpec>(&cfg, &grid, DSA_SPARSE_MLA_ATTENTION_FLASHMLA_BACKEND);
    assert_eq!(payloads.len(), 760);
    dsa_sparse_mla_attention_assert_payload(
        dsa_sparse_mla_attention_payload_for(&payloads, &grid, 12, 2052),
        12,
        2052,
        "g:(2047,2048,2048,2048,2048,2048)x2".to_string(),
    );
    dsa_sparse_mla_attention_assert_payload(
        dsa_sparse_mla_attention_payload_for(&payloads, &grid, 12, 2053),
        12,
        2053,
        "u:2048x12".to_string(),
    );
    dsa_sparse_mla_attention_assert_payload(
        dsa_sparse_mla_attention_payload_for(&payloads, &grid, 6, 2049),
        6,
        2049,
        "c:2044..2049@2048".to_string(),
    );
    dsa_sparse_mla_attention_assert_payload(
        dsa_sparse_mla_attention_payload_for(&payloads, &grid, 12, 2043),
        12,
        2043,
        "g:(2038,2039,2040,2041,2042,2043)x2".to_string(),
    );
}

#[test]
fn both_backends_use_the_existing_physical_bilinear_cache() {
    assert_eq!(
        DsaSparseMlaAttentionSpec::cache_kind(DSA_SPARSE_MLA_ATTENTION_TORCH_BACKEND),
        CacheKind::Cache2DLinear(Extrapolation::Weighted)
    );
    assert_eq!(
        DsaSparseMlaAttentionSpec::cache_kind(DSA_SPARSE_MLA_ATTENTION_FLASHMLA_BACKEND),
        CacheKind::Cache2DLinear(Extrapolation::Weighted)
    );
}

#[test]
fn enumeration_emits_backend_plus_the_exact_python_schema() {
    for (pattern, expected_payloads) in [
        (ValidCountsPattern::UniformFull, 810),
        (ValidCountsPattern::CausalTail, 1_517),
        (ValidCountsPattern::SpeculativeGroups { group_size: 2 }, 620),
    ] {
        let cfg = dsa_sparse_mla_attention_config(pattern);
        let grid = sweep::<DsaSparseMlaAttentionSpec>(&cfg);
        let payloads = payloads_of::<DsaSparseMlaAttentionSpec>(&cfg, &grid, DSA_SPARSE_MLA_ATTENTION_FLASHMLA_BACKEND);

        assert_eq!(payloads.len(), expected_payloads);
        let expected_names = [
            "backend",
            "cache_dtype",
            "cache_layout",
            "index_distribution",
            "index_dtype",
            "latent_dim",
            "num_cache_tokens",
            "num_heads",
            "num_kv_heads",
            "num_queries",
            "output_dtype",
            "q_dtype",
            "rope_dim",
            "selected_k",
            "softmax_scale",
            "valid_counts",
            "value_dim",
        ];
        for payload in &payloads {
            let names: Vec<&str> = payload.fields().keys().map(String::as_str).collect();
            assert_eq!(names, expected_names);
            assert_eq!(payload.fields().len(), 17);
        }

        let first_q = grid.axes()[0][0] as u32;
        let first_s = grid.axes()[1][0] as u32;
        dsa_sparse_mla_attention_assert_payload(
            &payloads[0],
            first_q,
            first_s,
            canonical_valid_counts(pattern, first_q, first_s, 2048),
        );
        dsa_sparse_mla_attention_assert_payload(
            dsa_sparse_mla_attention_payload_for(&payloads, &grid, 32, 2048),
            32,
            2048,
            canonical_valid_counts(pattern, 32, 2048, 2048),
        );
        dsa_sparse_mla_attention_assert_payload(
            dsa_sparse_mla_attention_payload_for(&payloads, &grid, 128, 2049),
            128,
            2049,
            canonical_valid_counts(pattern, 128, 2049, 2048),
        );
        let last_q = *grid.axes()[0].last().unwrap() as u32;
        let last_s = *grid.axes()[1].last().unwrap() as u32;
        dsa_sparse_mla_attention_assert_payload(
            payloads.last().unwrap(),
            last_q,
            last_s,
            canonical_valid_counts(pattern, last_q, last_s, 2048),
        );
    }

    dsa_sparse_mla_attention_assert_critical_payloads(
        ValidCountsPattern::UniformFull,
        &[(132, 6), (132, 11), (132, 91), (131, 8192), (133, 8192)],
    );
    dsa_sparse_mla_attention_assert_critical_payloads(
        ValidCountsPattern::CausalTail,
        &[
            (3, 3),
            (132, 182),
            (32, 511),
            (32, 513),
            (255, 724),
            (130, 130),
            (254, 255),
            (258, 260),
            (4096, 1),
        ],
    );
    dsa_sparse_mla_attention_assert_critical_payloads(
        ValidCountsPattern::SpeculativeGroups { group_size: 2 },
        &[
            (32, 3),
            (132, 23),
            (132, 45),
            (132, 182),
            (134, 65536),
            (266, 65536),
            (4096, 131072),
        ],
    );
}

#[test]
fn remediated_pattern_union_matches_the_frozen_next_phase_inventory() {
    let distributions = [
        "recent_contiguous",
        "unique_scattered_pages",
        "clustered_pages",
        "uniform_stride",
    ];
    let mut all_distributions = BTreeSet::new();
    let mut memberships = 0;

    for distribution in distributions {
        let uniform = dsa_sparse_mla_attention_feasible_payload_keys(ValidCountsPattern::UniformFull, distribution);
        let causal = dsa_sparse_mla_attention_feasible_payload_keys(ValidCountsPattern::CausalTail, distribution);
        let speculative = dsa_sparse_mla_attention_feasible_payload_keys(
            ValidCountsPattern::SpeculativeGroups { group_size: 2 },
            distribution,
        );

        assert_eq!(uniform.len(), 810);
        assert_eq!(causal.len(), 858);
        assert_eq!(speculative.len(), 620);
        assert_eq!(uniform.intersection(&causal).count(), 249);
        assert_eq!(uniform.intersection(&speculative).count(), 180);
        assert_eq!(causal.intersection(&speculative).count(), 168);
        assert_eq!(
            uniform
                .intersection(&causal)
                .filter(|payload| speculative.contains(*payload))
                .count(),
            148
        );

        memberships += uniform.len() + causal.len() + speculative.len();
        let per_distribution: BTreeSet<_> = uniform
            .into_iter()
            .chain(causal)
            .chain(speculative)
            .collect();
        assert_eq!(per_distribution.len(), 1_839);
        all_distributions.extend(per_distribution);
    }

    assert_eq!(memberships, 9_152);
    assert_eq!(all_distributions.len(), 7_356);
}

fn dsa_sparse_mla_attention_assert_grid(
    pattern: ValidCountsPattern,
    query_axis: &[u32],
    cache_axis: &[u32],
    cells: usize,
) {
    let grid = sweep::<DsaSparseMlaAttentionSpec>(&dsa_sparse_mla_attention_config(pattern));
    let axes = grid.axes();

    assert_eq!(axes.len(), 2);
    assert_eq!(axes[0], dsa_sparse_mla_attention_axis_values(query_axis));
    assert_eq!(axes[1], dsa_sparse_mla_attention_axis_values(cache_axis));
    assert!(axes[0].windows(2).all(|pair| pair[0] < pair[1]));
    assert!(axes[1].windows(2).all(|pair| pair[0] < pair[1]));
    assert_eq!(axes[0].first().copied(), Some(f64::from(query_axis[0])));
    assert_eq!(
        axes[0].last().copied(),
        Some(f64::from(*query_axis.last().unwrap()))
    );
    assert_eq!(axes[1].first().copied(), Some(f64::from(cache_axis[0])));
    assert_eq!(
        axes[1].last().copied(),
        Some(f64::from(*cache_axis.last().unwrap()))
    );
    assert_eq!(axes[0].len() * axes[1].len(), cells);
}

fn dsa_sparse_mla_attention_axis_values(axis: &[u32]) -> Vec<f64> {
    axis.iter().map(|&value| f64::from(value)).collect()
}

fn dsa_sparse_mla_attention_assert_contiguous(axis: &[f64], expected: &[u32]) {
    let expected = dsa_sparse_mla_attention_axis_values(expected);
    assert!(
        axis.windows(expected.len())
            .any(|window| window == expected.as_slice()),
        "axis {axis:?} does not contain contiguous sequence {expected:?}"
    );
}

fn dsa_sparse_mla_attention_assert_critical_payloads(pattern: ValidCountsPattern, coordinates: &[(u32, u32)]) {
    let cfg = dsa_sparse_mla_attention_config(pattern);
    let grid = sweep::<DsaSparseMlaAttentionSpec>(&cfg);
    let payloads = payloads_of::<DsaSparseMlaAttentionSpec>(&cfg, &grid, DSA_SPARSE_MLA_ATTENTION_FLASHMLA_BACKEND);

    for &(q, s) in coordinates {
        dsa_sparse_mla_attention_assert_payload(
            dsa_sparse_mla_attention_payload_for(&payloads, &grid, q, s),
            q,
            s,
            canonical_valid_counts(pattern, q, s, 2048),
        );
    }
}

fn dsa_sparse_mla_attention_feasible_payload_keys(pattern: ValidCountsPattern, distribution: &str) -> BTreeSet<String> {
    let mut cfg = dsa_sparse_mla_attention_config(pattern);
    cfg.index_distribution = distribution.to_string();
    let grid = sweep::<DsaSparseMlaAttentionSpec>(&cfg);
    let mask = mask_of::<DsaSparseMlaAttentionSpec>(&cfg, &grid);
    payloads_of::<DsaSparseMlaAttentionSpec>(&cfg, &grid, DSA_SPARSE_MLA_ATTENTION_FLASHMLA_BACKEND)
        .into_iter()
        .zip(mask)
        .filter_map(|(payload, masked)| {
            (!masked).then_some(Value::Object(payload.fields().clone()).to_string())
        })
        .collect()
}

fn dsa_sparse_mla_attention_mask_for(pattern: ValidCountsPattern, grid: &Grid) -> Vec<bool> {
    mask_of::<DsaSparseMlaAttentionSpec>(&dsa_sparse_mla_attention_config(pattern), grid)
}

fn dsa_sparse_mla_attention_assert_mask_split(mask: &[bool], feasible: usize, masked: usize) {
    assert_eq!(mask.len(), feasible + masked);
    assert_eq!(mask.iter().filter(|&&value| !value).count(), feasible);
    assert_eq!(mask.iter().filter(|&&value| value).count(), masked);
}

fn dsa_sparse_mla_attention_masked(mask: &[bool], grid: &Grid, q: u32, s: u32) -> bool {
    let q_index = grid.axes()[0]
        .iter()
        .position(|&value| value == f64::from(q))
        .unwrap();
    let s_index = grid.axes()[1]
        .iter()
        .position(|&value| value == f64::from(s))
        .unwrap();
    mask[q_index * grid.axes()[1].len() + s_index]
}

fn dsa_sparse_mla_attention_payload_for<'a>(
    payloads: &'a [Wire],
    grid: &Grid,
    q: u32,
    s: u32,
) -> &'a Wire {
    let q_index = grid.axes()[0]
        .iter()
        .position(|&value| value == f64::from(q))
        .unwrap();
    let s_index = grid.axes()[1]
        .iter()
        .position(|&value| value == f64::from(s))
        .unwrap();
    &payloads[q_index * grid.axes()[1].len() + s_index]
}

fn dsa_sparse_mla_attention_assert_payload(payload: &Wire, q: u32, s: u32, valid_counts: String) {
    let fields = payload.fields();
    assert_eq!(fields.get("backend"), Some(&Value::from(DSA_SPARSE_MLA_ATTENTION_FLASHMLA_BACKEND)));
    assert_eq!(fields.get("num_queries"), Some(&Value::from(q)));
    assert_eq!(fields.get("num_cache_tokens"), Some(&Value::from(s)));
    assert_eq!(fields.get("num_heads"), Some(&Value::from(64_u32)));
    assert_eq!(fields.get("num_kv_heads"), Some(&Value::from(1_u32)));
    assert_eq!(fields.get("selected_k"), Some(&Value::from(2048_u32)));
    assert_eq!(fields.get("latent_dim"), Some(&Value::from(512_u32)));
    assert_eq!(fields.get("rope_dim"), Some(&Value::from(64_u32)));
    assert_eq!(fields.get("value_dim"), Some(&Value::from(512_u32)));
    assert_eq!(fields.get("softmax_scale"), Some(&Value::from(0.0625)));
    assert_eq!(fields.get("q_dtype"), Some(&Value::from("bf16")));
    assert_eq!(fields.get("cache_dtype"), Some(&Value::from("bf16")));
    assert_eq!(fields.get("index_dtype"), Some(&Value::from("int32")));
    assert_eq!(fields.get("output_dtype"), Some(&Value::from("bf16")));
    assert_eq!(fields.get("valid_counts"), Some(&Value::from(valid_counts)));
    assert_eq!(
        fields.get("index_distribution"),
        Some(&Value::from("recent_contiguous"))
    );
    assert_eq!(
        fields.get("cache_layout"),
        Some(&Value::from("token_major_mqa_bf16_latent_rope"))
    );
    assert_eq!(payload.backend(), Some(DSA_SPARSE_MLA_ATTENTION_FLASHMLA_BACKEND));
}

fn dsa_sparse_mla_prefill_config() -> DsaSparseMlaPrefillKernelConfig {
    DsaSparseMlaPrefillKernelConfig {
        backends: vec!["flashinfer_trtllm_fp8"],
        gpu_name: "NVIDIA B200".to_string(),
        max_model_len: 1_048_576,
        num_heads: 16.into(),
        num_kv_heads: 1.into(),
        selected_k: 2048,
        latent_dim: 512.into(),
        rope_dim: 64.into(),
        value_dim: 512.into(),
        softmax_scale_denominator: 16,
        q_dtype: DType::Fp8E4m3,
        cache_dtype: DType::Fp8E4m3,
        index_dtype: "int32".to_string(),
        output_dtype: DType::Bf16,
        index_distribution: "recent_contiguous".to_string(),
        cache_layout: "hnd_paged_mqa_fp8_latent_rope".to_string(),
    }
}

#[test]
fn ragged_batch_uses_causal_equivalent_context() {
    let input = DsaSparseMlaPrefillKernelInput {
        query_context_pairs: vec![(8, 128), (16, 256)],
    };
    assert_eq!(coords(&input)[0], 24.0);
    assert_eq!(coords(&input)[1], 2.0);
    assert!((coords(&input)[2] - 212.666_666_666_666_66).abs() < 1e-12);
}

#[test]
fn one_request_keeps_the_canonical_context_coordinate() {
    let input = DsaSparseMlaPrefillKernelInput {
        query_context_pairs: vec![(2048, 8192)],
    };
    assert_eq!(coords(&input), &[2048.0, 1.0, 8192.0]);
}

#[test]
fn dsa_sparse_mla_prefill_canonical_payload_matches_python_schema() {
    let config = dsa_sparse_mla_prefill_config();
    let grid = Grid::new(SweepGrid::new(vec![
        vec![24],
        vec![2],
        vec![192],
    ]));
    let payload =
        &payloads_of::<DsaSparseMlaPrefillSpec>(&config, &grid, "flashinfer_trtllm_fp8")[0];
    let fields = payload.fields();

    assert_eq!(fields.len(), 15);
    assert_eq!(
        fields.get("query_context_pairs"),
        Some(&json(r#"[[12, 192], [12, 192]]"#))
    );
    assert_eq!(fields.get("softmax_scale"), Some(&Value::from(0.0625)));
    assert_eq!(fields.get("q_dtype"), Some(&Value::from("fp8_e4m3")));
    assert_eq!(fields.get("output_dtype"), Some(&Value::from("bf16")));
}

#[test]
fn sweep_keeps_the_measured_b200_ramp_anchors() {
    let grid = sweep::<DsaSparseMlaPrefillSpec>(&dsa_sparse_mla_prefill_config());
    assert_eq!(
        grid.axes()[0],
        [1.0, 8.0, 24.0, 64.0, 128.0, 256.0, 512.0, 1024.0, 1536.0, 2048.0, 8192.0]
    );
    assert_eq!(grid.axes()[1], [1.0, 2.0, 4.0, 8.0, 16.0, 64.0]);
    assert_eq!(
        grid.axes()[2],
        [
            1.0, 32.0, 128.0, 192.0, 256.0, 512.0, 1024.0, 2048.0, 4096.0, 8192.0, 65536.0,
            1048576.0
        ]
    );
}

#[test]
fn impossible_request_topology_is_masked() {
    let config = dsa_sparse_mla_prefill_config();
    let grid = Grid::new(SweepGrid::new(vec![
        vec![1],
        vec![2],
        vec![1],
    ]));
    assert_eq!(
        mask_of::<DsaSparseMlaPrefillSpec>(&config, &grid),
        vec![true]
    );
}

#[test]
fn sweep_preserves_the_production_coarsening_boundary() {
    let config = DeepseekV4FusedInvRopeFp8QuantKernelConfig {
        backends: vec!["vllm_triton"],
        gpu_name: "NVIDIA H200".to_string(),
    };
    let grid = sweep::<DeepseekV4FusedInvRopeFp8QuantSpec>(&config);
    let axis = &grid.axes()[0];
    for num_tokens in [1.0, 511.0, 512.0, 513.0, 8192.0] {
        assert!(axis.contains(&num_tokens));
    }
    assert!(axis.iter().all(|&num_tokens| num_tokens <= 8192.0));
}

#[test]
fn glm53_epsilon_is_forwarded_unchanged() {
    let config = DeepseekV4FusedQKvRmsnormKernelConfig {
        backends: vec!["vllm_fork_triton"],
        gpu_name: "NVIDIA B200".to_string(),
        q_dim: 1536.into(),
        kv_dim: 512.into(),
        rms_eps_bits: 1.0e-5_f64.to_bits(),
        dtype: DType::Bf16,
    };
    let grid = sweep::<DeepseekV4FusedQKvRmsnormSpec>(&config);
    let payload =
        &payloads_of::<DeepseekV4FusedQKvRmsnormSpec>(&config, &grid, "vllm_fork_triton")[0];
    assert_eq!(payload.fields().get("rms_eps"), Some(&Value::from(1.0e-5)));
}

#[test]
fn ragged_suffix_gather_projects_selected_rows_not_full_sequences() {
    let input = DeepseekV4PackedCacheGatherKernelInput {
        seq_lens: vec![65_536, 32_768],
        gather_lens: vec![128, 64],
    };
    assert_eq!(coords(&input), &[2.0, 96.0]);
}

#[test]
fn dp_padding_is_preserved_as_insert_fraction() {
    let input = DeepseekV4QnormRopeKvInsertKernelInput {
        num_tokens: 128,
        num_insert_tokens: 96,
    };
    assert_eq!(coords(&input), &[128.0, 0.75]);
}

fn compressed_rows(
    num_tokens: u32,
    num_active_tokens: u32,
    compress_ratio: u32,
) -> DeepseekV4SparseAttnCompressStoreKernelInput {
    timing::kernels::deepseek_v4_sparse_attn_compress_store::canonical_input(
        num_tokens,
        num_active_tokens,
        compress_ratio,
    )
}

#[test]
fn canonical_topology_has_the_requested_boundary_count() {
    for compress_ratio in [4, 128] {
        let input = compressed_rows(128, 17, compress_ratio);
        assert_eq!(input.work(compress_ratio), (128, 17));
        assert_eq!(input.row_request_ids.iter().copied().max(), Some(63));
        for request in 0..64 {
            let positions = input
                .row_positions
                .iter()
                .zip(&input.row_request_ids)
                .filter_map(|(&position, &row_request)| {
                    (row_request == request).then_some(position)
                })
                .collect::<Vec<_>>();
            assert!(positions.windows(2).all(|pair| pair[0] < pair[1]));
        }
    }
}

#[test]
fn ragged_counts_project_to_exact_mean_selected_work() {
    let input = DeepseekV4SparseMlaDecodeKernelInput {
        swa_valid_counts: vec![128, 64, 32, 16],
        extra_valid_counts: vec![256, 128, 64, 32],
    };
    assert_eq!(coords(&input), &[4.0, 180.0]);
}

#[test]
fn five_requests_remain_one_input_with_two_physical_launches() {
    let input = DeepseekV4SparseMlaPrefillKernelInput {
        query_context_pairs: vec![(4, 256), (3, 129), (2, 64), (1, 32), (5, 257)],
    };
    assert_eq!(coords(&input)[0], 15.0);
    assert_eq!(coords(&input)[2], 2.0);
}

#[test]
fn a_decode_width_picks_its_pattern() {
    assert_eq!(ValidCountsPattern::for_decode(0), None);
    assert_eq!(ValidCountsPattern::for_decode(1), Some(ValidCountsPattern::UniformFull));
    assert_eq!(
        ValidCountsPattern::for_decode(6),
        Some(ValidCountsPattern::SpeculativeGroups { group_size: 6 })
    );
}

#[test]
fn an_insert_sweep_counts_in_quarters() {
    let config = DeepseekV4QnormRopeKvInsertKernelConfig {
        backends: vec!["vllm_cuda"],
        gpu_name: "NVIDIA H200".to_string(),
        num_heads: 64,
        padded_heads: 64,
        head_dim: 512.into(),
        rope_dim: 64.into(),
        block_size: 256,
        rms_eps_bits: 1.0e-6_f64.to_bits(),
        input_dtype: DType::Bf16,
        kv_dtype: DType::Fp8E4m3,
        cache_dtype: "fp8_ds_mla".to_string(),
        cache_layout: "block_segregated_data_then_scales".to_string(),
        scale_format: "ue8m0".to_string(),
    };
    let grid = sweep::<DeepseekV4QnormRopeKvInsertSpec>(&config);
    assert_eq!(grid.axes()[1], [0.0, 0.25, 0.5, 0.75, 1.0]);
}
