//! Indexer kernels: configurations, sweeps and wire payloads.

use serde_json::Value;
use timing::bridge::payload::{ArgsPayload, DType, PayloadValue, Real};
use timing::cache::{CacheKind, Extrapolation};
use timing::dims::Dim;
use timing::kernels::config::{ConfigValue, KernelConfig};
use timing::kernels::deepseek_v4_indexer_mqa_logits_decode::DeepseekV4IndexerMqaLogitsDecodeSpec;
use timing::kernels::deepseek_v4_indexer_mqa_logits_prefill::DeepseekV4IndexerPrefillKernelInput;
use timing::kernels::deepseek_v4_indexer_q_rope_quant::{
    DeepseekV4IndexerQRopeQuantKernelConfig, DeepseekV4IndexerQRopeQuantSpec,
};
use timing::kernels::deepseek_v4_indexer_topk_decode::{
    batch_axis, context_axis, DeepseekV4IndexerTopkDecodeSpec,
};
use timing::kernels::dsa_index_cache_append::{
    DsaIndexCacheAppendKernelConfig, DsaIndexCacheAppendKernelInput, DsaIndexCacheAppendSpec,
};
use timing::kernels::dsa_indexer_q_rope_quant::{
    DsaIndexerQRopeQuantKernelConfig, DsaIndexerQRopeQuantKernelInput, DsaIndexerQRopeQuantSpec,
};
use timing::kernels::dsa_mqa_logits_prefill::{
    DsaMqaLogitsPrefillKernelConfig, DsaMqaLogitsPrefillKernelInput, DsaMqaLogitsPrefillSpec,
};
use timing::kernels::dsa_paged_mqa_logits_decode::{
    DsaPagedMqaLogitsDecodeKernelConfig, DsaPagedMqaLogitsDecodeKernelInput,
    DsaPagedMqaLogitsDecodeSpec,
};
use timing::kernels::dsa_persistent_topk_decode::{
    DsaPersistentTopkDecodeKernelConfig, DsaPersistentTopkDecodeKernelInput,
    DsaPersistentTopkDecodeSpec,
};
use timing::kernels::dsa_topk_prefill::{
    logits_row_stride, DsaTopkPrefillKernelConfig, DsaTopkPrefillKernelInput, DsaTopkPrefillSpec,
};
use timing::kernels::engine::{CellPayloads, KernelSpec, SweepCoords};
use timing::sweep::{Ratio, SweepGrid};

/// A stand-in for the token axis that kernels share.
fn tokens() -> Vec<u32> {
    let mut points = vec![32, 64, 128, 256];
    points.extend((384..=4096).step_by(128));
    points.extend((4352..=8192).step_by(256));
    points.extend((9216..=16384).step_by(1024));
    points.extend([20480, 24576, 32768, 49152, 65536]);
    points
}

/// A sweep with its axes as real numbers.
struct Grid {
    inner: SweepGrid,
    axes: Vec<Vec<f64>>,
}

impl Grid {
    fn new(inner: SweepGrid) -> Self {
        let units = inner.units().clone();
        let axes = inner
            .axes()
            .iter()
            .zip(units)
            .map(|(axis, unit)| axis.iter().map(|&x| f64::from(x) / f64::from(unit)).collect())
            .collect();
        Grid { inner, axes }
    }

    fn axes(&self) -> &Vec<Vec<f64>> {
        &self.axes
    }
}

fn sweep<K: KernelSpec>(config: &K::Config) -> Grid {
    Grid::new(K::sweep_grid(config, &tokens()))
}

fn mask_of<K: KernelSpec>(config: &K::Config, grid: &Grid) -> Vec<bool> {
    K::infeasible_mask(config, &grid.inner)
}

/// A wire payload with its fields as JSON.
struct Wire {
    payload: ArgsPayload,
    fields: serde_json::Map<String, Value>,
}

impl Wire {
    fn new(payload: ArgsPayload) -> Self {
        let fields = payload
            .fields()
            .entries()
            .iter()
            .map(|(name, value)| (name.clone(), wire_value(value)))
            .collect();
        Wire { payload, fields }
    }

    fn fields(&self) -> &serde_json::Map<String, Value> {
        &self.fields
    }

    fn backend(&self) -> Option<&str> {
        self.payload.backend()
    }
}

fn real_value(real: &Real) -> f64 {
    match real {
        Real::Bits(bits) => f64::from_bits(*bits),
        Real::Reciprocal(n) => 1.0 / f64::from(*n),
        Real::ReciprocalRoot(n) => 1.0 / f64::from(*n).sqrt(),
    }
}

fn wire_value(value: &PayloadValue) -> Value {
    match value {
        PayloadValue::Flag(flag) => Value::from(*flag),
        PayloadValue::Number(number) => Value::from(*number),
        PayloadValue::Real(real) => Value::from(real_value(real)),
        PayloadValue::Text(text) => Value::from(text.as_str()),
        PayloadValue::Numbers(numbers) => Value::from(numbers.clone()),
        PayloadValue::Pairs(pairs) => {
            Value::from(pairs.iter().map(|&(a, b)| vec![a, b]).collect::<Vec<_>>())
        }
    }
}

fn payloads_of<K: CellPayloads>(config: &K::Config, grid: &Grid, backend: &str) -> Vec<Wire> {
    K::enumerate(config, &grid.inner, backend).into_iter().map(Wire::new).collect()
}

fn coords(input: &impl SweepCoords) -> Vec<f64> {
    ratios(input.coords())
}

fn ratios(coords: Vec<Ratio>) -> Vec<f64> {
    coords.into_iter().map(|r| r.numerator as f64 / r.denominator as f64).collect()
}

fn json(text: &str) -> Value {
    serde_json::from_str(text).unwrap()
}

fn dimension_value(dim: &Dim) -> Value {
    let mut bindings = serde_json::Map::new();
    for (name, value) in dim.bindings().entries() {
        bindings.insert(name.clone(), Value::from(*value));
    }
    let mut fields = serde_json::Map::new();
    fields.insert("value".to_string(), Value::from(dim.get()));
    let expression = if dim.is_literal() { Value::Null } else { Value::from(dim.formula()) };
    fields.insert("expression".to_string(), expression);
    fields.insert("bindings".to_string(), Value::Object(bindings));
    Value::Object(fields)
}

fn config_value(value: &ConfigValue) -> Value {
    match value {
        ConfigValue::Text(text) => Value::from(text.as_str()),
        ConfigValue::Number(number) => Value::from(*number),
        ConfigValue::Flag(flag) => Value::from(*flag),
        ConfigValue::Precision(dtype) => Value::from(dtype.as_str()),
        ConfigValue::Link(fabric) => Value::from(fabric.as_str()),
        ConfigValue::Dimension(dim) => dimension_value(dim),
        ConfigValue::Names(names) => Value::from(names.clone()),
        ConfigValue::Numbers(numbers) => Value::from(numbers.clone()),
        ConfigValue::Lists(lists) => Value::from(lists.clone()),
        ConfigValue::Corpus(corpus) => Value::from(corpus.data_file.as_str()),
        ConfigValue::Variant { tag, fields } if fields.is_empty() => Value::from(*tag),
        ConfigValue::Variant { tag, fields } => {
            let mut inner = serde_json::Map::new();
            for (name, number) in fields {
                inner.insert(name.to_string(), Value::from(*number));
            }
            let mut outer = serde_json::Map::new();
            outer.insert(tag.to_string(), Value::Object(inner));
            Value::Object(outer)
        }
    }
}

fn described<C: KernelConfig>(config: &C) -> Value {
    let mut fields = serde_json::Map::new();
    for field in config.describe_config() {
        fields.insert(field.name.to_string(), config_value(&field.value));
    }
    Value::Object(fields)
}


const DSA_INDEX_CACHE_APPEND_TORCH_BACKEND: &str = "torch";
const DSA_INDEX_CACHE_APPEND_VLLM_BACKEND: &str = "vllm_cuda";

fn dsa_index_cache_append_config() -> DsaIndexCacheAppendKernelConfig {
    DsaIndexCacheAppendKernelConfig {
        backends: vec![DSA_INDEX_CACHE_APPEND_TORCH_BACKEND, DSA_INDEX_CACHE_APPEND_VLLM_BACKEND],
        gpu_name: "NVIDIA H200".to_string(),
        index_dim: Dim::param("index_dim", 128),
        block_size: 64,
        quant_block_size: 128,
        input_dtype: DType::Bf16,
        cache_dtype: DType::Fp8E4m3,
        scale_format: "ue8m0".to_string(),
        cache_format: "page_planar_fp8_fp32_scale".to_string(),
    }
}

#[test]
fn config_identity_matches_the_dsa_index_cache_path() {
    let cfg = dsa_index_cache_append_config();

    assert_eq!(DsaIndexCacheAppendSpec::KIND, "dsa_index_cache_append");
    assert_eq!(
        DsaIndexCacheAppendSpec::profile_kind(),
        "dsa_index_cache_append"
    );
    assert_eq!(cfg.backends(), &[DSA_INDEX_CACHE_APPEND_TORCH_BACKEND, DSA_INDEX_CACHE_APPEND_VLLM_BACKEND]);
    assert_eq!(cfg.gpu_name(), "NVIDIA H200");
    assert_eq!(cfg.index_dim, 128);
    assert_eq!(cfg.block_size, 64);
    assert_eq!(cfg.quant_block_size, 128);
    assert_eq!(cfg.input_dtype, DType::Bf16);
    assert_eq!(cfg.cache_dtype, DType::Fp8E4m3);
    assert_eq!(cfg.scale_format, "ue8m0");
    assert_eq!(cfg.cache_format, "page_planar_fp8_fp32_scale");
}

#[test]
fn describe_config_preserves_rich_index_dim() {
    assert_eq!(
        described(&dsa_index_cache_append_config()),
        json(r#"{
            "backends": ["torch", "vllm_cuda"],
            "gpu_name": "NVIDIA H200",
            "index_dim": {
                "value": 128,
                "expression": "index_dim",
                "bindings": {"index_dim": 128}
            },
            "block_size": 64,
            "quant_block_size": 128,
            "input_dtype": "bf16",
            "cache_dtype": "fp8_e4m3",
            "scale_format": "ue8m0",
            "cache_format": "page_planar_fp8_fp32_scale"
        }"#)
    );
}

#[test]
fn input_coords_and_slot_input_are_exactly_num_tokens() {
    let input = DsaIndexCacheAppendKernelInput { num_tokens: 128 };

    assert_eq!(coords(&input), &[128.0]);
    assert_eq!(
        DsaIndexCacheAppendKernelInput::coord_field_names(),
        &["num_tokens"]
    );
}

#[test]
fn sweep_has_frozen_decode_wave_and_prefill_coverage() {
    let cfg = dsa_index_cache_append_config();
    let grid = sweep::<DsaIndexCacheAppendSpec>(&cfg);
    let axis = &grid.axes()[0];

    assert_eq!(grid.axes().len(), 1);
    assert_eq!(&axis[..6], &[1.0, 2.0, 4.0, 8.0, 16.0, 32.0]);
    assert!(axis.windows(2).any(|pair| pair == [264.0, 265.0]));
    assert_eq!(axis.last(), Some(&65536.0));
    assert_eq!(axis.len(), 70);
    assert!(axis.windows(2).all(|pair| pair[0] < pair[1]));
    assert!(mask_of::<DsaIndexCacheAppendSpec>(&cfg, &grid).is_empty());
}

#[test]
fn both_backends_use_linear_1d_cache() {
    assert_eq!(
        DsaIndexCacheAppendSpec::cache_kind(DSA_INDEX_CACHE_APPEND_TORCH_BACKEND),
        CacheKind::Cache1DLinear
    );
    assert_eq!(
        DsaIndexCacheAppendSpec::cache_kind(DSA_INDEX_CACHE_APPEND_VLLM_BACKEND),
        CacheKind::Cache1DLinear
    );
}

#[test]
fn enumerate_matches_the_python_wire_schema_for_both_backends() {
    let cfg = dsa_index_cache_append_config();
    let grid = sweep::<DsaIndexCacheAppendSpec>(&cfg);

    for backend in [DSA_INDEX_CACHE_APPEND_TORCH_BACKEND, DSA_INDEX_CACHE_APPEND_VLLM_BACKEND] {
        let payloads = payloads_of::<DsaIndexCacheAppendSpec>(&cfg, &grid, backend);
        assert_eq!(payloads.len(), 70);

        let first = &payloads[0];
        let fields = first.fields();
        let field_names: Vec<&str> = fields.keys().map(String::as_str).collect();

        assert_eq!(
            field_names,
            [
                "backend",
                "block_size",
                "cache_dtype",
                "cache_format",
                "index_dim",
                "input_dtype",
                "num_tokens",
                "quant_block_size",
                "scale_format",
            ]
        );
        assert_eq!(fields.len(), 9);
        assert_eq!(fields.get("backend"), Some(&Value::from(backend)));
        assert_eq!(fields.get("num_tokens"), Some(&Value::from(1_u32)));
        assert_eq!(fields.get("index_dim"), Some(&Value::from(128_u32)));
        assert_eq!(fields.get("block_size"), Some(&Value::from(64_u32)));
        assert_eq!(fields.get("quant_block_size"), Some(&Value::from(128_u32)));
        assert_eq!(fields.get("input_dtype"), Some(&Value::from("bf16")));
        assert_eq!(fields.get("cache_dtype"), Some(&Value::from("fp8_e4m3")));
        assert_eq!(fields.get("scale_format"), Some(&Value::from("ue8m0")));
        assert_eq!(
            fields.get("cache_format"),
            Some(&Value::from("page_planar_fp8_fp32_scale"))
        );
        assert_eq!(first.backend(), Some(backend));
    }
}

#[test]
fn dtype_tags_expose_compute_bf16_and_kv_fp8_e4m3() {
    let cfg = dsa_index_cache_append_config();

    assert_eq!(cfg.compute_dtype(), Some(DType::Bf16));
    assert_eq!(cfg.kv_dtype(), Some(DType::Fp8E4m3));
}

fn dsa_indexer_q_rope_quant_config() -> DsaIndexerQRopeQuantKernelConfig {
    DsaIndexerQRopeQuantKernelConfig {
        backends: vec!["sglang_cuda"],
        gpu_name: "NVIDIA B200".to_string(),
        num_heads: 32.into(),
        head_dim: 128.into(),
        rope_dim: 64.into(),
        rope_layout: "rope_first".to_string(),
        hadamard: false,
        input_dtype: DType::Bf16,
        q_output_dtype: DType::Fp8E4m3,
        weight_output_dtype: DType::Fp32,
    }
}

#[test]
fn payload_matches_python_schema_and_token_coordinates() {
    let config = dsa_indexer_q_rope_quant_config();
    let grid = sweep::<DsaIndexerQRopeQuantSpec>(&config);
    let axis = &grid.axes()[0];
    assert_eq!(axis.len(), 68);
    assert_eq!(axis.first(), Some(&1.0));
    assert_eq!(axis.last(), Some(&65_536.0));
    for anchor in [32.0, 48.0, 2_048.0, 8_192.0] {
        assert!(axis.contains(&anchor), "token grid is missing {anchor}");
    }
    assert!(matches!(
        DsaIndexerQRopeQuantSpec::cache_kind("sglang_cuda"),
        CacheKind::Cache1DLinear
    ));

    let payloads = payloads_of::<DsaIndexerQRopeQuantSpec>(&config, &grid, "sglang_cuda");
    assert_eq!(payloads.last().unwrap().fields()["num_tokens"], 65_536);
    let payload = &payloads[0];
    let fields = payload.fields();
    assert_eq!(fields.len(), 10);
    assert_eq!(fields["backend"], Value::from("sglang_cuda"));
    assert_eq!(fields["num_tokens"], Value::from(1_u32));
    assert_eq!(fields["num_heads"], Value::from(32_u32));
    assert_eq!(fields["head_dim"], Value::from(128_u32));
    assert_eq!(fields["rope_dim"], Value::from(64_u32));
    assert_eq!(fields["rope_layout"], Value::from("rope_first"));
    assert_eq!(fields["hadamard"], Value::from(false));
    assert_eq!(fields["input_dtype"], Value::from("bf16"));
    assert_eq!(fields["q_output_dtype"], Value::from("fp8_e4m3"));
    assert_eq!(fields["weight_output_dtype"], Value::from("fp32"));
    assert_eq!(config.compute_dtype(), Some(DType::Bf16));
    assert_eq!(config.kv_dtype(), None);

    let input = DsaIndexerQRopeQuantKernelInput { num_tokens: 48 };
    assert_eq!(coords(&input), &[48.0]);
    assert_eq!(
        DsaIndexerQRopeQuantKernelInput::coord_field_names(),
        &["num_tokens"]
    );
}

#[test]
fn compile_time_instantiations_are_config_identity() {
    let base = dsa_indexer_q_rope_quant_config();
    let mut different_layout = base.clone();
    different_layout.rope_layout = "rope_last".to_string();
    assert_ne!(base, different_layout);

    let mut with_hadamard = dsa_indexer_q_rope_quant_config();
    with_hadamard.hadamard = true;
    assert_ne!(dsa_indexer_q_rope_quant_config(), with_hadamard);
}

const DSA_MQA_LOGITS_PREFILL_TORCH_BACKEND: &str = "torch";
const DSA_MQA_LOGITS_PREFILL_DEEPGEMM_BACKEND: &str = "vllm_deepgemm_fp8";
const DSA_MQA_LOGITS_PREFILL_QUERY_AXIS: &[f64] = &[
    1.0, 2.0, 3.0, 4.0, 8.0, 16.0, 32.0, 64.0, 127.0, 128.0, 129.0, 255.0, 256.0, 257.0, 363.0,
    512.0, 1024.0, 2048.0, 4096.0, 8192.0, 16384.0, 32768.0, 65536.0,
];
const DSA_MQA_LOGITS_PREFILL_KEY_AXIS: &[f64] = &[
    1.0, 2.0, 4.0, 8.0, 16.0, 32.0, 64.0, 128.0, 255.0, 256.0, 257.0, 363.0, 512.0, 1024.0,
    2048.0, 4096.0, 8192.0, 16384.0, 32768.0, 65536.0, 131072.0, 262144.0, 524288.0, 1048576.0,
];

fn dsa_mqa_logits_prefill_config() -> DsaMqaLogitsPrefillKernelConfig {
    DsaMqaLogitsPrefillKernelConfig {
        backends: vec![DSA_MQA_LOGITS_PREFILL_TORCH_BACKEND, DSA_MQA_LOGITS_PREFILL_DEEPGEMM_BACKEND],
        gpu_name: "NVIDIA H200".to_string(),
        num_sequences: 1,
        num_heads: Dim::param("num_index_heads", 64),
        head_dim: Dim::param("index_head_dim", 128),
        q_dtype: DType::Fp8E4m3,
        k_dtype: DType::Fp8E4m3,
        k_scale_dtype: DType::Fp32,
        weight_dtype: DType::Fp32,
        output_dtype: DType::Fp32,
        span_mode: "single_causal_tail".to_string(),
        clean_logits: false,
    }
}

#[test]
fn config_identity_matches_the_prefill_logits_path() {
    let cfg = dsa_mqa_logits_prefill_config();

    assert_eq!(DsaMqaLogitsPrefillSpec::KIND, "dsa_mqa_logits_prefill");
    assert_eq!(
        DsaMqaLogitsPrefillSpec::profile_kind(),
        "dsa_mqa_logits_prefill"
    );
    assert_eq!(cfg.backends(), &[DSA_MQA_LOGITS_PREFILL_TORCH_BACKEND, DSA_MQA_LOGITS_PREFILL_DEEPGEMM_BACKEND]);
    assert_eq!(cfg.gpu_name(), "NVIDIA H200");
    assert_eq!(cfg.num_sequences, 1);
    assert_eq!(cfg.num_heads, 64);
    assert_eq!(cfg.head_dim, 128);
    assert_eq!(cfg.q_dtype, DType::Fp8E4m3);
    assert_eq!(cfg.k_dtype, DType::Fp8E4m3);
    assert_eq!(cfg.k_scale_dtype, DType::Fp32);
    assert_eq!(cfg.weight_dtype, DType::Fp32);
    assert_eq!(cfg.output_dtype, DType::Fp32);
    assert_eq!(cfg.span_mode, "single_causal_tail");
    assert!(!cfg.clean_logits);
}

#[test]
fn describe_config_preserves_rich_head_dimensions() {
    assert_eq!(
        described(&dsa_mqa_logits_prefill_config()),
        json(r#"{
            "backends": ["torch", "vllm_deepgemm_fp8"],
            "gpu_name": "NVIDIA H200",
            "num_sequences": 1,
            "num_heads": {
                "value": 64,
                "expression": "num_index_heads",
                "bindings": {"num_index_heads": 64}
            },
            "head_dim": {
                "value": 128,
                "expression": "index_head_dim",
                "bindings": {"index_head_dim": 128}
            },
            "q_dtype": "fp8_e4m3",
            "k_dtype": "fp8_e4m3",
            "k_scale_dtype": "fp32",
            "weight_dtype": "fp32",
            "output_dtype": "fp32",
            "span_mode": "single_causal_tail",
            "clean_logits": false
        }"#)
    );
}

#[test]
fn dsa_mqa_logits_prefill_input_coords_deserialization_and_slot_input_are_physical_m_n() {
    let input = DsaMqaLogitsPrefillKernelInput { num_queries: 128, num_keys: 4096 };

    assert_eq!(coords(&input), &[128.0, 4096.0]);
    assert_eq!(
        DsaMqaLogitsPrefillKernelInput::coord_field_names(),
        &["num_queries", "num_keys"]
    );
}

#[test]
fn sweep_grid_has_the_frozen_physical_axes() {
    let grid = sweep::<DsaMqaLogitsPrefillSpec>(&dsa_mqa_logits_prefill_config());
    let axes = grid.axes();

    assert_eq!(axes.len(), 2);
    assert_eq!(axes[0], DSA_MQA_LOGITS_PREFILL_QUERY_AXIS);
    assert_eq!(axes[1], DSA_MQA_LOGITS_PREFILL_KEY_AXIS);
    assert_eq!(axes[0].len(), 23);
    assert_eq!(axes[1].len(), 24);
    assert!(axes[0].windows(2).all(|pair| pair[0] < pair[1]));
    assert!(axes[1].windows(2).all(|pair| pair[0] < pair[1]));
    assert_eq!(&axes[0][..3], &[1.0, 2.0, 3.0]);
    assert_eq!(&axes[0][8..11], &[127.0, 128.0, 129.0]);
    assert_eq!(&axes[0][11..14], &[255.0, 256.0, 257.0]);
    assert_eq!(&axes[1][8..11], &[255.0, 256.0, 257.0]);
    assert_eq!(&axes[0][13..16], &[257.0, 363.0, 512.0]);
    assert_eq!(&axes[1][10..13], &[257.0, 363.0, 512.0]);
    assert_eq!(axes[0].last(), Some(&65536.0));
    assert_eq!(axes[1].last(), Some(&1_048_576.0));
    assert_eq!(axes[0].len() * axes[1].len(), 552);
}

#[test]
fn dsa_mqa_logits_prefill_infeasible_mask_drops_exactly_the_m_greater_than_n_corner() {
    let cfg = dsa_mqa_logits_prefill_config();
    let grid = sweep::<DsaMqaLogitsPrefillSpec>(&cfg);
    let mask = mask_of::<DsaMqaLogitsPrefillSpec>(&cfg, &grid);
    let key_count = grid.axes()[1].len();

    assert_eq!(mask.len(), 552);
    assert_eq!(mask.iter().filter(|&&masked| masked).count(), 217);
    assert_eq!(mask.iter().filter(|&&masked| !masked).count(), 335);

    let masked = |m: f64, n: f64| {
        let i = grid.axes()[0].iter().position(|&value| value == m).unwrap();
        let j = grid.axes()[1].iter().position(|&value| value == n).unwrap();
        mask[i * key_count + j]
    };
    assert!(!masked(1.0, 1.0));
    assert!(!masked(128.0, 128.0));
    assert!(!masked(128.0, 4096.0));
    assert!(masked(2.0, 1.0));
    assert!(masked(363.0, 257.0));
    assert!(!masked(363.0, 363.0));
    assert!(!masked(363.0, 512.0));
    assert!(masked(512.0, 363.0));
    assert!(masked(4096.0, 2048.0));
    assert!(!masked(4096.0, 65536.0));
    assert!(masked(65536.0, 1_048_576.0));
}

#[test]
fn dsa_mqa_logits_prefill_both_backends_use_physical_bilinear_cache() {
    assert_eq!(
        DsaMqaLogitsPrefillSpec::cache_kind(DSA_MQA_LOGITS_PREFILL_TORCH_BACKEND),
        CacheKind::Cache2DLinear(Extrapolation::Product)
    );
    assert_eq!(
        DsaMqaLogitsPrefillSpec::cache_kind(DSA_MQA_LOGITS_PREFILL_DEEPGEMM_BACKEND),
        CacheKind::Cache2DLinear(Extrapolation::Product)
    );
}

#[test]
fn dsa_mqa_logits_prefill_enumerate_matches_the_full_python_wire_schema_before_masking() {
    let cfg = dsa_mqa_logits_prefill_config();
    let grid = sweep::<DsaMqaLogitsPrefillSpec>(&cfg);
    let payloads = payloads_of::<DsaMqaLogitsPrefillSpec>(&cfg, &grid, DSA_MQA_LOGITS_PREFILL_DEEPGEMM_BACKEND);

    assert_eq!(payloads.len(), 552);
    let expected_names = [
        "backend",
        "clean_logits",
        "head_dim",
        "k_dtype",
        "k_scale_dtype",
        "num_heads",
        "num_keys",
        "num_queries",
        "num_sequences",
        "output_dtype",
        "q_dtype",
        "span_mode",
        "weight_dtype",
    ];
    for payload in &payloads {
        let names: Vec<&str> = payload.fields().keys().map(String::as_str).collect();
        assert_eq!(names, expected_names);
        assert_eq!(payload.fields().len(), 13);
    }

    dsa_mqa_logits_prefill_assert_payload(&payloads[0], DSA_MQA_LOGITS_PREFILL_DEEPGEMM_BACKEND, 1, 1);
    dsa_mqa_logits_prefill_assert_payload(payloads.last().unwrap(), DSA_MQA_LOGITS_PREFILL_DEEPGEMM_BACKEND, 65536, 1_048_576);
}

fn dsa_mqa_logits_prefill_assert_payload(
    payload: &Wire,
    backend: &str,
    num_queries: u32,
    num_keys: u32,
) {
    let fields = payload.fields();
    assert_eq!(fields.get("backend"), Some(&Value::from(backend)));
    assert_eq!(fields.get("num_queries"), Some(&Value::from(num_queries)));
    assert_eq!(fields.get("num_keys"), Some(&Value::from(num_keys)));
    assert_eq!(fields.get("num_sequences"), Some(&Value::from(1_u32)));
    assert_eq!(fields.get("num_heads"), Some(&Value::from(64_u32)));
    assert_eq!(fields.get("head_dim"), Some(&Value::from(128_u32)));
    assert_eq!(fields.get("q_dtype"), Some(&Value::from("fp8_e4m3")));
    assert_eq!(fields.get("k_dtype"), Some(&Value::from("fp8_e4m3")));
    assert_eq!(fields.get("k_scale_dtype"), Some(&Value::from("fp32")));
    assert_eq!(fields.get("weight_dtype"), Some(&Value::from("fp32")));
    assert_eq!(fields.get("output_dtype"), Some(&Value::from("fp32")));
    assert_eq!(
        fields.get("span_mode"),
        Some(&Value::from("single_causal_tail"))
    );
    assert_eq!(fields.get("clean_logits"), Some(&Value::from(false)));
    assert_eq!(payload.backend(), Some(backend));
}

#[test]
fn dsa_mqa_logits_prefill_dtype_tags_expose_fp8_compute_and_kv() {
    let cfg = dsa_mqa_logits_prefill_config();

    assert_eq!(cfg.compute_dtype(), Some(DType::Fp8E4m3));
    assert_eq!(cfg.kv_dtype(), Some(DType::Fp8E4m3));
}

const DSA_PAGED_MQA_LOGITS_DECODE_TORCH_BACKEND: &str = "torch";
const DSA_PAGED_MQA_LOGITS_DECODE_DEEPGEMM_BACKEND: &str = "vllm_deepgemm_fp8";
const DSA_PAGED_MQA_LOGITS_DECODE_BATCH_AXIS: &[f64] = &[
    1.0, 2.0, 4.0, 8.0, 16.0, 32.0, 64.0, 127.0, 128.0, 129.0, 131.0, 132.0, 133.0, 256.0,
];
const DSA_PAGED_MQA_LOGITS_DECODE_CONTEXT_AXIS: &[f64] = &[
    1.0, 63.0, 64.0, 65.0, 128.0, 255.0, 256.0, 257.0, 512.0, 1024.0, 2048.0, 4096.0, 8192.0,
    16384.0, 32768.0, 65536.0,
];

fn dsa_paged_mqa_logits_decode_config(max_model_len: u32) -> DsaPagedMqaLogitsDecodeKernelConfig {
    DsaPagedMqaLogitsDecodeKernelConfig {
        backends: vec![DSA_PAGED_MQA_LOGITS_DECODE_TORCH_BACKEND, DSA_PAGED_MQA_LOGITS_DECODE_DEEPGEMM_BACKEND],
        gpu_name: "NVIDIA H200".to_string(),
        next_n: 1,
        max_model_len: Dim::param("max_model_len", max_model_len),
        num_heads: Dim::param("num_index_heads", 64),
        head_dim: Dim::param("index_head_dim", 128),
        block_size: 64,
        q_dtype: DType::Fp8E4m3,
        cache_dtype: DType::Fp8E4m3,
        scale_dtype: DType::Fp32,
        weight_dtype: DType::Fp32,
        output_dtype: DType::Fp32,
        context_mode: "uniform".to_string(),
        page_mapping: "unique_scattered".to_string(),
        cache_format: "page_planar_fp8_fp32_scale".to_string(),
        clean_logits: false,
    }
}

#[test]
fn config_identity_matches_the_paged_decode_logits_path() {
    let cfg = dsa_paged_mqa_logits_decode_config(131072);

    assert_eq!(
        DsaPagedMqaLogitsDecodeSpec::KIND,
        "dsa_paged_mqa_logits_decode"
    );
    assert_eq!(
        DsaPagedMqaLogitsDecodeSpec::profile_kind(),
        "dsa_paged_mqa_logits_decode"
    );
    assert_eq!(cfg.backends(), &[DSA_PAGED_MQA_LOGITS_DECODE_TORCH_BACKEND, DSA_PAGED_MQA_LOGITS_DECODE_DEEPGEMM_BACKEND]);
    assert_eq!(cfg.gpu_name(), "NVIDIA H200");
    assert_eq!(cfg.next_n, 1);
    assert_eq!(cfg.max_model_len, 131072);
    assert_eq!(cfg.num_heads, 64);
    assert_eq!(cfg.head_dim, 128);
    assert_eq!(cfg.block_size, 64);
    assert_eq!(cfg.q_dtype, DType::Fp8E4m3);
    assert_eq!(cfg.cache_dtype, DType::Fp8E4m3);
    assert_eq!(cfg.scale_dtype, DType::Fp32);
    assert_eq!(cfg.weight_dtype, DType::Fp32);
    assert_eq!(cfg.output_dtype, DType::Fp32);
    assert_eq!(cfg.context_mode, "uniform");
    assert_eq!(cfg.page_mapping, "unique_scattered");
    assert_eq!(cfg.cache_format, "page_planar_fp8_fp32_scale");
    assert!(!cfg.clean_logits);
}

#[test]
fn dsa_paged_mqa_logits_decode_describe_config_preserves_rich_deployment_dimensions() {
    assert_eq!(
        described(&dsa_paged_mqa_logits_decode_config(131072)),
        json(r#"{
            "backends": ["torch", "vllm_deepgemm_fp8"],
            "gpu_name": "NVIDIA H200",
            "next_n": 1,
            "max_model_len": {
                "value": 131072,
                "expression": "max_model_len",
                "bindings": {"max_model_len": 131072}
            },
            "num_heads": {
                "value": 64,
                "expression": "num_index_heads",
                "bindings": {"num_index_heads": 64}
            },
            "head_dim": {
                "value": 128,
                "expression": "index_head_dim",
                "bindings": {"index_head_dim": 128}
            },
            "block_size": 64,
            "q_dtype": "fp8_e4m3",
            "cache_dtype": "fp8_e4m3",
            "scale_dtype": "fp32",
            "weight_dtype": "fp32",
            "output_dtype": "fp32",
            "context_mode": "uniform",
            "page_mapping": "unique_scattered",
            "cache_format": "page_planar_fp8_fp32_scale",
            "clean_logits": false
        }"#)
    );
}

#[test]
fn input_coords_deserialization_and_slot_input_are_physical_batch_context() {
    let input = DsaPagedMqaLogitsDecodeKernelInput { batch_size: 16, context_len: 4096 };

    assert_eq!(coords(&input), &[16.0, 4096.0]);
    assert_eq!(
        DsaPagedMqaLogitsDecodeKernelInput::coord_field_names(),
        &["batch_size", "context_len"]
    );
}

#[test]
fn dsa_paged_mqa_logits_decode_sweep_grid_has_the_frozen_physical_axes_and_boundaries() {
    let grid = sweep::<DsaPagedMqaLogitsDecodeSpec>(&dsa_paged_mqa_logits_decode_config(131072));
    let axes = grid.axes();

    assert_eq!(axes.len(), 2);
    assert_eq!(axes[0], DSA_PAGED_MQA_LOGITS_DECODE_BATCH_AXIS);
    assert_eq!(axes[1], DSA_PAGED_MQA_LOGITS_DECODE_CONTEXT_AXIS);
    assert_eq!(axes[0].len(), 14);
    assert_eq!(axes[1].len(), 16);
    assert!(axes[0].windows(2).all(|pair| pair[0] < pair[1]));
    assert!(axes[1].windows(2).all(|pair| pair[0] < pair[1]));
    assert_eq!(&axes[0][7..10], &[127.0, 128.0, 129.0]);
    assert_eq!(&axes[0][10..13], &[131.0, 132.0, 133.0]);
    assert_eq!(&axes[1][1..4], &[63.0, 64.0, 65.0]);
    assert_eq!(&axes[1][5..8], &[255.0, 256.0, 257.0]);
    assert_eq!(axes[0].first(), Some(&1.0));
    assert_eq!(axes[0].last(), Some(&256.0));
    assert_eq!(axes[1].first(), Some(&1.0));
    assert_eq!(axes[1].last(), Some(&65536.0));
    assert_eq!(axes[0].len() * axes[1].len(), 224);
}

#[test]
fn infeasible_mask_respects_max_model_len_and_its_boundary() {
    let large_cfg = dsa_paged_mqa_logits_decode_config(131072);
    let grid = sweep::<DsaPagedMqaLogitsDecodeSpec>(&large_cfg);
    let unbounded_mask = mask_of::<DsaPagedMqaLogitsDecodeSpec>(&large_cfg, &grid);
    assert_eq!(unbounded_mask.len(), 224);
    assert_eq!(unbounded_mask.iter().filter(|&&masked| masked).count(), 0);
    assert_eq!(
        unbounded_mask.iter().filter(|&&masked| !masked).count(),
        224
    );

    let bounded_cfg = dsa_paged_mqa_logits_decode_config(256);
    let bounded_mask = mask_of::<DsaPagedMqaLogitsDecodeSpec>(&bounded_cfg, &grid);
    assert_eq!(bounded_mask.len(), 224);
    assert_eq!(bounded_mask.iter().filter(|&&masked| masked).count(), 126);
    assert_eq!(bounded_mask.iter().filter(|&&masked| !masked).count(), 98);

    let context_count = grid.axes()[1].len();
    let masked = |batch_size: f64, context_len: f64| {
        let i = grid.axes()[0]
            .iter()
            .position(|&value| value == batch_size)
            .unwrap();
        let j = grid.axes()[1]
            .iter()
            .position(|&value| value == context_len)
            .unwrap();
        bounded_mask[i * context_count + j]
    };
    for batch_size in [1.0, 132.0, 256.0] {
        assert!(!masked(batch_size, 255.0));
        assert!(!masked(batch_size, 256.0));
        assert!(masked(batch_size, 257.0));
    }
}

#[test]
fn dsa_paged_mqa_logits_decode_both_backends_use_physical_bilinear_cache() {
    assert_eq!(
        DsaPagedMqaLogitsDecodeSpec::cache_kind(DSA_PAGED_MQA_LOGITS_DECODE_TORCH_BACKEND),
        CacheKind::Cache2DLinear(Extrapolation::Product)
    );
    assert_eq!(
        DsaPagedMqaLogitsDecodeSpec::cache_kind(DSA_PAGED_MQA_LOGITS_DECODE_DEEPGEMM_BACKEND),
        CacheKind::Cache2DLinear(Extrapolation::Product)
    );
}

#[test]
fn dsa_paged_mqa_logits_decode_enumerate_matches_the_full_python_wire_schema_before_masking() {
    let cfg = dsa_paged_mqa_logits_decode_config(131072);
    let grid = sweep::<DsaPagedMqaLogitsDecodeSpec>(&cfg);
    let payloads = payloads_of::<DsaPagedMqaLogitsDecodeSpec>(&cfg, &grid, DSA_PAGED_MQA_LOGITS_DECODE_DEEPGEMM_BACKEND);

    assert_eq!(payloads.len(), 224);
    let expected_names = [
        "backend",
        "batch_size",
        "block_size",
        "cache_dtype",
        "cache_format",
        "clean_logits",
        "context_len",
        "context_mode",
        "head_dim",
        "max_model_len",
        "next_n",
        "num_heads",
        "output_dtype",
        "page_mapping",
        "q_dtype",
        "scale_dtype",
        "weight_dtype",
    ];
    for payload in &payloads {
        let names: Vec<&str> = payload.fields().keys().map(String::as_str).collect();
        assert_eq!(names, expected_names);
        assert_eq!(payload.fields().len(), 17);
    }

    dsa_paged_mqa_logits_decode_assert_payload(&payloads[0], DSA_PAGED_MQA_LOGITS_DECODE_DEEPGEMM_BACKEND, 1, 1);
    dsa_paged_mqa_logits_decode_assert_payload(&payloads[15], DSA_PAGED_MQA_LOGITS_DECODE_DEEPGEMM_BACKEND, 1, 65536);
    dsa_paged_mqa_logits_decode_assert_payload(&payloads[16], DSA_PAGED_MQA_LOGITS_DECODE_DEEPGEMM_BACKEND, 2, 1);
    dsa_paged_mqa_logits_decode_assert_payload(payloads.last().unwrap(), DSA_PAGED_MQA_LOGITS_DECODE_DEEPGEMM_BACKEND, 256, 65536);
}

fn dsa_paged_mqa_logits_decode_assert_payload(
    payload: &Wire,
    backend: &str,
    batch_size: u32,
    context_len: u32,
) {
    let fields = payload.fields();
    assert_eq!(fields.get("backend"), Some(&Value::from(backend)));
    assert_eq!(fields.get("batch_size"), Some(&Value::from(batch_size)));
    assert_eq!(fields.get("context_len"), Some(&Value::from(context_len)));
    assert_eq!(fields.get("next_n"), Some(&Value::from(1_u32)));
    assert_eq!(fields.get("max_model_len"), Some(&Value::from(131072_u32)));
    assert_eq!(fields.get("num_heads"), Some(&Value::from(64_u32)));
    assert_eq!(fields.get("head_dim"), Some(&Value::from(128_u32)));
    assert_eq!(fields.get("block_size"), Some(&Value::from(64_u32)));
    assert_eq!(fields.get("q_dtype"), Some(&Value::from("fp8_e4m3")));
    assert_eq!(fields.get("cache_dtype"), Some(&Value::from("fp8_e4m3")));
    assert_eq!(fields.get("scale_dtype"), Some(&Value::from("fp32")));
    assert_eq!(fields.get("weight_dtype"), Some(&Value::from("fp32")));
    assert_eq!(fields.get("output_dtype"), Some(&Value::from("fp32")));
    assert_eq!(fields.get("context_mode"), Some(&Value::from("uniform")));
    assert_eq!(
        fields.get("page_mapping"),
        Some(&Value::from("unique_scattered"))
    );
    assert_eq!(
        fields.get("cache_format"),
        Some(&Value::from("page_planar_fp8_fp32_scale"))
    );
    assert_eq!(fields.get("clean_logits"), Some(&Value::from(false)));
    assert_eq!(payload.backend(), Some(backend));
}

#[test]
fn dsa_paged_mqa_logits_decode_dtype_tags_expose_fp8_compute_and_kv() {
    let cfg = dsa_paged_mqa_logits_decode_config(131072);

    assert_eq!(cfg.compute_dtype(), Some(DType::Fp8E4m3));
    assert_eq!(cfg.kv_dtype(), Some(DType::Fp8E4m3));
}

const DSA_PERSISTENT_TOPK_DECODE_TORCH_BACKEND: &str = "torch";
const DSA_PERSISTENT_TOPK_DECODE_VLLM_BACKEND: &str = "vllm_cuda";
const DSA_PERSISTENT_TOPK_DECODE_BATCH_AXIS: &[f64] = &[
    1.0, 2.0, 4.0, 8.0, 12.0, 15.0, 16.0, 17.0, 23.0, 24.0, 31.0, 32.0, 33.0, 39.0, 46.0, 48.0,
    64.0, 65.0, 66.0, 67.0, 92.0, 96.0, 127.0, 128.0, 129.0, 130.0, 131.0, 132.0, 133.0, 197.0,
    198.0, 199.0, 255.0, 256.0,
];
const DSA_PERSISTENT_TOPK_DECODE_CONTEXT_AXIS: &[f64] = &[
    0.0, 1.0, 2.0, 128.0, 256.0, 512.0, 1024.0, 2046.0, 2047.0, 2048.0, 2049.0, 2050.0, 2897.0,
    4096.0, 5792.0, 8191.0, 8192.0, 8193.0, 16384.0, 32767.0, 32768.0, 32769.0, 65536.0,
    131072.0, 262144.0, 524288.0, 1048576.0,
];
const DSA_PERSISTENT_TOPK_DECODE_FULL_MAX_MODEL_LEN: u32 = 1_048_576;

fn dsa_persistent_topk_decode_config(next_n: u32) -> DsaPersistentTopkDecodeKernelConfig {
    DsaPersistentTopkDecodeKernelConfig {
        backends: vec![DSA_PERSISTENT_TOPK_DECODE_TORCH_BACKEND, DSA_PERSISTENT_TOPK_DECODE_VLLM_BACKEND],
        gpu_name: "NVIDIA H200".to_string(),
        next_n,
        max_model_len: Dim::param("max_model_len", DSA_PERSISTENT_TOPK_DECODE_FULL_MAX_MODEL_LEN),
        top_k: 2048,
        logits_row_stride: Dim::param("logits_row_stride", DSA_PERSISTENT_TOPK_DECODE_FULL_MAX_MODEL_LEN),
        logits_dtype: DType::Fp32,
        index_dtype: "int32".to_string(),
        context_mode: "uniform".to_string(),
    }
}

#[test]
fn config_and_kind_identity_match_both_production_dispatches() {
    for next_n in [1, 2] {
        let cfg = dsa_persistent_topk_decode_config(next_n);

        assert_eq!(
            DsaPersistentTopkDecodeSpec::KIND,
            "dsa_persistent_topk_decode"
        );
        assert_eq!(
            DsaPersistentTopkDecodeSpec::profile_kind(),
            "dsa_persistent_topk_decode"
        );
        assert_eq!(cfg.backends(), &[DSA_PERSISTENT_TOPK_DECODE_TORCH_BACKEND, DSA_PERSISTENT_TOPK_DECODE_VLLM_BACKEND]);
        assert_eq!(cfg.gpu_name(), "NVIDIA H200");
        assert_eq!(cfg.next_n, next_n);
        assert_eq!(cfg.max_model_len, DSA_PERSISTENT_TOPK_DECODE_FULL_MAX_MODEL_LEN);
        assert_eq!(cfg.top_k, 2048);
        assert_eq!(cfg.logits_row_stride, DSA_PERSISTENT_TOPK_DECODE_FULL_MAX_MODEL_LEN);
        assert_eq!(cfg.logits_dtype, DType::Fp32);
        assert_eq!(cfg.index_dtype, "int32");
        assert_eq!(cfg.context_mode, "uniform");
    }
}

#[test]
fn dsa_persistent_topk_decode_describe_config_preserves_rich_deployment_dimensions() {
    assert_eq!(
        described(&dsa_persistent_topk_decode_config(2)),
        json(r#"{
            "backends": ["torch", "vllm_cuda"],
            "gpu_name": "NVIDIA H200",
            "next_n": 2,
            "max_model_len": {
                "value": 1048576,
                "expression": "max_model_len",
                "bindings": {"max_model_len": 1048576}
            },
            "top_k": 2048,
            "logits_row_stride": {
                "value": 1048576,
                "expression": "logits_row_stride",
                "bindings": {"logits_row_stride": 1048576}
            },
            "logits_dtype": "fp32",
            "index_dtype": "int32",
            "context_mode": "uniform"
        }"#)
    );
}

#[test]
fn inputs_are_physical_batch_context_coordinates_and_slot_payloads() {
    for (batch_size, context_len) in [(16, 8192), (1, 0)] {
        let input = DsaPersistentTopkDecodeKernelInput { batch_size, context_len };
        assert_eq!(
            DsaPersistentTopkDecodeKernelInput::coord_field_names(),
            &["batch_size", "context_len"]
        );
        assert_eq!(coords(&input), &[f64::from(batch_size), f64::from(context_len)]);
    }
}

#[test]
fn sweep_grid_has_every_measured_batch_cliff_wave_and_context_boundary() {
    let grid = sweep::<DsaPersistentTopkDecodeSpec>(&dsa_persistent_topk_decode_config(1));
    let axes = grid.axes();

    assert_eq!(axes.len(), 2);
    assert_eq!(axes[0], DSA_PERSISTENT_TOPK_DECODE_BATCH_AXIS);
    assert_eq!(axes[1], DSA_PERSISTENT_TOPK_DECODE_CONTEXT_AXIS);
    assert_eq!(axes[0].len(), 34);
    assert_eq!(axes[1].len(), 27);
    assert!(axes[0].windows(2).all(|pair| pair[0] < pair[1]));
    assert!(axes[1].windows(2).all(|pair| pair[0] < pair[1]));
    assert_eq!(&axes[0][3..6], &[8.0, 12.0, 15.0]);
    assert_eq!(&axes[0][5..8], &[15.0, 16.0, 17.0]);
    assert_eq!(&axes[0][7..11], &[17.0, 23.0, 24.0, 31.0]);
    assert_eq!(&axes[0][10..13], &[31.0, 32.0, 33.0]);
    assert_eq!(&axes[0][12..15], &[33.0, 39.0, 46.0]);
    assert_eq!(&axes[0][13..17], &[39.0, 46.0, 48.0, 64.0]);
    assert_eq!(&axes[0][17..20], &[65.0, 66.0, 67.0]);
    assert_eq!(&axes[0][19..23], &[67.0, 92.0, 96.0, 127.0]);
    assert_eq!(&axes[0][22..25], &[127.0, 128.0, 129.0]);
    assert_eq!(&axes[0][24..27], &[129.0, 130.0, 131.0]);
    assert_eq!(&axes[0][26..29], &[131.0, 132.0, 133.0]);
    assert_eq!(&axes[0][29..32], &[197.0, 198.0, 199.0]);
    assert_eq!(&axes[1][3..6], &[128.0, 256.0, 512.0]);
    assert_eq!(&axes[1][6..11], &[1024.0, 2046.0, 2047.0, 2048.0, 2049.0]);
    assert_eq!(&axes[1][8..11], &[2047.0, 2048.0, 2049.0]);
    assert_eq!(&axes[1][9..14], &[2048.0, 2049.0, 2050.0, 2897.0, 4096.0]);
    assert_eq!(&axes[1][13..16], &[4096.0, 5792.0, 8191.0]);
    assert_eq!(&axes[1][15..18], &[8191.0, 8192.0, 8193.0]);
    assert_eq!(&axes[1][19..22], &[32767.0, 32768.0, 32769.0]);
    assert_eq!(axes[0].first(), Some(&1.0));
    assert_eq!(axes[0].last(), Some(&256.0));
    assert_eq!(axes[1].first(), Some(&0.0));
    assert_eq!(axes[1].last(), Some(&1_048_576.0));
    assert_eq!(axes[0].len() * axes[1].len(), 918);
}

#[test]
fn infeasible_mask_respects_native_speculation_minimum_and_maximum() {
    let next_one = dsa_persistent_topk_decode_config(1);
    let grid = sweep::<DsaPersistentTopkDecodeSpec>(&next_one);
    let next_one_mask = mask_of::<DsaPersistentTopkDecodeSpec>(&next_one, &grid);
    assert_eq!(next_one_mask.len(), 918);
    assert_eq!(next_one_mask.iter().filter(|&&masked| masked).count(), 0);
    let next_one_feasible = next_one_mask.iter().filter(|&&masked| !masked).count();
    assert_eq!(next_one_feasible, 918);

    let next_two = dsa_persistent_topk_decode_config(2);
    let next_two_mask = mask_of::<DsaPersistentTopkDecodeSpec>(&next_two, &grid);
    assert_eq!(next_two_mask.len(), 918);
    assert_eq!(next_two_mask.iter().filter(|&&masked| masked).count(), 34);
    let next_two_feasible = next_two_mask.iter().filter(|&&masked| !masked).count();
    assert_eq!(next_two_feasible, 884);
    assert_eq!(next_one_feasible + next_two_feasible, 1802);

    let context_count = grid.axes()[1].len();
    let masked = |batch_size: f64, context_len: f64| {
        let i = grid.axes()[0]
            .iter()
            .position(|&value| value == batch_size)
            .unwrap();
        let j = grid.axes()[1]
            .iter()
            .position(|&value| value == context_len)
            .unwrap();
        next_two_mask[i * context_count + j]
    };
    for batch_size in DSA_PERSISTENT_TOPK_DECODE_BATCH_AXIS {
        assert!(masked(*batch_size, 0.0));
        assert!(!masked(*batch_size, 1.0));
        assert!(!masked(*batch_size, 131072.0));
        assert!(!masked(*batch_size, 1_048_576.0));
    }
    for batch_size in [12.0, 23.0, 24.0, 39.0, 46.0, 48.0, 92.0, 96.0, 130.0] {
        assert!(masked(batch_size, 0.0));
        assert!(!masked(batch_size, 1.0));
        assert!(!masked(batch_size, 131072.0));
    }
}

#[test]
fn dsa_persistent_topk_decode_both_backends_use_physical_bilinear_cache() {
    assert_eq!(
        DsaPersistentTopkDecodeSpec::cache_kind(DSA_PERSISTENT_TOPK_DECODE_TORCH_BACKEND),
        CacheKind::Cache2DLinear(Extrapolation::Product)
    );
    assert_eq!(
        DsaPersistentTopkDecodeSpec::cache_kind(DSA_PERSISTENT_TOPK_DECODE_VLLM_BACKEND),
        CacheKind::Cache2DLinear(Extrapolation::Product)
    );
}

#[test]
fn dsa_persistent_topk_decode_enumerate_matches_the_full_python_wire_schema_before_masking() {
    for next_n in [1, 2] {
        let cfg = dsa_persistent_topk_decode_config(next_n);
        let grid = sweep::<DsaPersistentTopkDecodeSpec>(&cfg);
        let payloads = payloads_of::<DsaPersistentTopkDecodeSpec>(&cfg, &grid, DSA_PERSISTENT_TOPK_DECODE_VLLM_BACKEND);

        assert_eq!(payloads.len(), 918);
        let expected_names = [
            "backend",
            "batch_size",
            "context_len",
            "context_mode",
            "index_dtype",
            "logits_dtype",
            "logits_row_stride",
            "max_model_len",
            "next_n",
            "top_k",
        ];
        for payload in &payloads {
            let names: Vec<&str> = payload.fields().keys().map(String::as_str).collect();
            assert_eq!(names, expected_names);
            assert_eq!(payload.fields().len(), 10);
        }

        dsa_persistent_topk_decode_assert_payload(&payloads[0], 1, 0, next_n);
        dsa_persistent_topk_decode_assert_payload(dsa_persistent_topk_decode_payload_for(&payloads, &grid, 16, 8192), 16, 8192, next_n);
        let (legacy_lower_batch, legacy_upper_batch) =
            if next_n == 1 { (32, 33) } else { (16, 17) };
        dsa_persistent_topk_decode_assert_payload(
            dsa_persistent_topk_decode_payload_for(&payloads, &grid, legacy_lower_batch, 2048),
            legacy_lower_batch,
            2048,
            next_n,
        );
        dsa_persistent_topk_decode_assert_payload(
            dsa_persistent_topk_decode_payload_for(&payloads, &grid, legacy_upper_batch, 2049),
            legacy_upper_batch,
            2049,
            next_n,
        );
        for batch_size in [12, 23, 24, 39, 46, 48, 92, 96, 130] {
            dsa_persistent_topk_decode_assert_payload(
                dsa_persistent_topk_decode_payload_for(&payloads, &grid, batch_size, 2046),
                batch_size,
                2046,
                next_n,
            );
        }
        for (batch_size, context_len) in [
            (23, 4096),
            (24, 131072),
            (32, 2897),
            (39, 5792),
            (39, 65536),
            (64, 2050),
            (66, 256),
            (128, 2050),
            (256, 2050),
        ] {
            dsa_persistent_topk_decode_assert_payload(
                dsa_persistent_topk_decode_payload_for(&payloads, &grid, batch_size, context_len),
                batch_size,
                context_len,
                next_n,
            );
        }
        dsa_persistent_topk_decode_assert_payload(
            dsa_persistent_topk_decode_payload_for(&payloads, &grid, 132, 32768),
            132,
            32768,
            next_n,
        );
        dsa_persistent_topk_decode_assert_payload(dsa_persistent_topk_decode_payload_for(&payloads, &grid, 199, 8192), 199, 8192, next_n);
        dsa_persistent_topk_decode_assert_payload(payloads.last().unwrap(), 256, 1_048_576, next_n);
    }
}

fn dsa_persistent_topk_decode_payload_for<'a>(
    payloads: &'a [Wire],
    grid: &Grid,
    batch_size: u32,
    context_len: u32,
) -> &'a Wire {
    let batch_index = grid.axes()[0]
        .iter()
        .position(|&value| value == f64::from(batch_size))
        .unwrap();
    let context_index = grid.axes()[1]
        .iter()
        .position(|&value| value == f64::from(context_len))
        .unwrap();
    &payloads[batch_index * grid.axes()[1].len() + context_index]
}

fn dsa_persistent_topk_decode_assert_payload(
    payload: &Wire,
    batch_size: u32,
    context_len: u32,
    next_n: u32,
) {
    let fields = payload.fields();
    assert_eq!(fields.get("backend"), Some(&Value::from(DSA_PERSISTENT_TOPK_DECODE_VLLM_BACKEND)));
    assert_eq!(fields.get("batch_size"), Some(&Value::from(batch_size)));
    assert_eq!(fields.get("context_len"), Some(&Value::from(context_len)));
    assert_eq!(fields.get("next_n"), Some(&Value::from(next_n)));
    assert_eq!(
        fields.get("max_model_len"),
        Some(&Value::from(DSA_PERSISTENT_TOPK_DECODE_FULL_MAX_MODEL_LEN))
    );
    assert_eq!(fields.get("top_k"), Some(&Value::from(2048_u32)));
    assert_eq!(
        fields.get("logits_row_stride"),
        Some(&Value::from(DSA_PERSISTENT_TOPK_DECODE_FULL_MAX_MODEL_LEN))
    );
    assert_eq!(fields.get("logits_dtype"), Some(&Value::from("fp32")));
    assert_eq!(fields.get("index_dtype"), Some(&Value::from("int32")));
    assert_eq!(fields.get("context_mode"), Some(&Value::from("uniform")));
    assert_eq!(payload.backend(), Some(DSA_PERSISTENT_TOPK_DECODE_VLLM_BACKEND));
}

#[test]
fn dsa_persistent_topk_decode_dtype_tags_expose_fp32_compute_and_no_kv_dtype() {
    let cfg = dsa_persistent_topk_decode_config(1);

    assert_eq!(cfg.compute_dtype(), Some(DType::Fp32));
    assert_eq!(cfg.kv_dtype(), None);
}

const DSA_TOPK_PREFILL_TORCH_BACKEND: &str = "torch";
const DSA_TOPK_PREFILL_VLLM_BACKEND: &str = "vllm_cuda";
const DSA_TOPK_PREFILL_QUERY_AXIS: &[f64] = &[
    1.0, 2.0, 4.0, 8.0, 16.0, 32.0, 64.0, 127.0, 128.0, 129.0, 131.0, 132.0, 133.0, 255.0,
    256.0, 257.0, 512.0, 1024.0, 1448.0, 2047.0, 2048.0, 4096.0, 8192.0, 16384.0, 32768.0,
    65536.0,
];
const DSA_TOPK_PREFILL_KEY_AXIS: &[f64] = &[
    1.0, 2.0, 4.0, 8.0, 16.0, 32.0, 64.0, 128.0, 255.0, 256.0, 257.0, 512.0, 1024.0, 1448.0,
    2047.0, 2048.0, 2049.0, 4096.0, 8192.0, 16384.0, 32768.0, 65536.0, 131072.0, 262144.0,
    524288.0, 1048576.0,
];

fn dsa_topk_prefill_config() -> DsaTopkPrefillKernelConfig {
    DsaTopkPrefillKernelConfig {
        backends: vec![DSA_TOPK_PREFILL_TORCH_BACKEND, DSA_TOPK_PREFILL_VLLM_BACKEND],
        gpu_name: "NVIDIA H200".to_string(),
        num_sequences: 1,
        top_k: 2048,
        logits_dtype: DType::Fp32,
        index_dtype: "int32".to_string(),
        span_mode: "single_causal_tail".to_string(),
    }
}

#[test]
fn config_and_kind_identity_match_the_prefill_topk_path() {
    let cfg = dsa_topk_prefill_config();

    assert_eq!(DsaTopkPrefillSpec::KIND, "dsa_topk_prefill");
    assert_eq!(DsaTopkPrefillSpec::profile_kind(), "dsa_topk_prefill");
    assert_eq!(cfg.backends(), &[DSA_TOPK_PREFILL_TORCH_BACKEND, DSA_TOPK_PREFILL_VLLM_BACKEND]);
    assert_eq!(cfg.gpu_name(), "NVIDIA H200");
    assert_eq!(cfg.num_sequences, 1);
    assert_eq!(cfg.top_k, 2048);
    assert_eq!(cfg.logits_dtype, DType::Fp32);
    assert_eq!(cfg.index_dtype, "int32");
    assert_eq!(cfg.span_mode, "single_causal_tail");
}

#[test]
fn describe_config_is_the_exact_static_identity() {
    assert_eq!(
        described(&dsa_topk_prefill_config()),
        json(r#"{
            "backends": ["torch", "vllm_cuda"],
            "gpu_name": "NVIDIA H200",
            "num_sequences": 1,
            "top_k": 2048,
            "logits_dtype": "fp32",
            "index_dtype": "int32",
            "span_mode": "single_causal_tail"
        }"#)
    );
}

#[test]
fn dsa_topk_prefill_input_coords_deserialization_and_slot_input_are_physical_m_n() {
    let input = DsaTopkPrefillKernelInput { num_queries: 128, num_keys: 8192 };

    assert_eq!(coords(&input), &[128.0, 8192.0]);
    assert_eq!(
        DsaTopkPrefillKernelInput::coord_field_names(),
        &["num_queries", "num_keys"]
    );
}

#[test]
fn dsa_topk_prefill_sweep_grid_has_the_frozen_physical_axes_and_boundaries() {
    let grid = sweep::<DsaTopkPrefillSpec>(&dsa_topk_prefill_config());
    let axes = grid.axes();

    assert_eq!(axes.len(), 2);
    assert_eq!(axes[0], DSA_TOPK_PREFILL_QUERY_AXIS);
    assert_eq!(axes[1], DSA_TOPK_PREFILL_KEY_AXIS);
    assert_eq!(axes[0].len(), 26);
    assert_eq!(axes[1].len(), 26);
    assert!(axes[0].windows(2).all(|pair| pair[0] < pair[1]));
    assert!(axes[1].windows(2).all(|pair| pair[0] < pair[1]));
    assert_eq!(&axes[0][7..10], &[127.0, 128.0, 129.0]);
    assert_eq!(&axes[0][10..13], &[131.0, 132.0, 133.0]);
    assert_eq!(&axes[0][13..16], &[255.0, 256.0, 257.0]);
    assert_eq!(&axes[0][17..21], &[1024.0, 1448.0, 2047.0, 2048.0]);
    assert_eq!(&axes[1][8..11], &[255.0, 256.0, 257.0]);
    assert_eq!(&axes[1][12..17], &[1024.0, 1448.0, 2047.0, 2048.0, 2049.0]);
    assert_eq!(&axes[1][21..23], &[65536.0, 131072.0]);
    assert_eq!(axes[0].first(), Some(&1.0));
    assert_eq!(axes[0].last(), Some(&65536.0));
    assert_eq!(axes[1].first(), Some(&1.0));
    assert_eq!(axes[1].last(), Some(&1_048_576.0));
    assert_eq!(axes[0].len() * axes[1].len(), 676);
}

#[test]
fn dsa_topk_prefill_infeasible_mask_drops_exactly_the_m_greater_than_n_corner() {
    let cfg = dsa_topk_prefill_config();
    let grid = sweep::<DsaTopkPrefillSpec>(&cfg);
    let mask = mask_of::<DsaTopkPrefillSpec>(&cfg, &grid);
    let key_count = grid.axes()[1].len();

    assert_eq!(mask.len(), 676);
    assert_eq!(mask.iter().filter(|&&masked| masked).count(), 264);
    assert_eq!(mask.iter().filter(|&&masked| !masked).count(), 412);

    let masked = |m: f64, n: f64| {
        let i = grid.axes()[0].iter().position(|&value| value == m).unwrap();
        let j = grid.axes()[1].iter().position(|&value| value == n).unwrap();
        mask[i * key_count + j]
    };
    assert!(!masked(1.0, 1.0));
    assert!(!masked(128.0, 128.0));
    assert!(!masked(128.0, 2048.0));
    assert!(masked(1448.0, 1024.0));
    assert!(!masked(1448.0, 1448.0));
    assert!(!masked(1448.0, 2047.0));
    assert!(masked(2047.0, 1448.0));
    assert!(!masked(2047.0, 2047.0));
    assert!(!masked(4096.0, 65536.0));
    assert!(!masked(4096.0, 131072.0));
    assert!(masked(2.0, 1.0));
    assert!(masked(129.0, 128.0));
    assert!(masked(4096.0, 2049.0));
    assert!(!masked(4096.0, 1_048_576.0));
    assert!(masked(65536.0, 1_048_576.0));
}

#[test]
fn dsa_topk_prefill_both_backends_use_physical_bilinear_cache() {
    assert_eq!(
        DsaTopkPrefillSpec::cache_kind(DSA_TOPK_PREFILL_TORCH_BACKEND),
        CacheKind::Cache2DLinear(Extrapolation::Product)
    );
    assert_eq!(
        DsaTopkPrefillSpec::cache_kind(DSA_TOPK_PREFILL_VLLM_BACKEND),
        CacheKind::Cache2DLinear(Extrapolation::Product)
    );
}

#[test]
fn row_stride_is_derived_from_each_physical_key_count() {
    assert_eq!(logits_row_stride(1), 512);
    assert_eq!(logits_row_stride(2048), 2304);
    assert_eq!(logits_row_stride(2049), 2560);
    assert_eq!(logits_row_stride(4096), 4352);
    assert_eq!(logits_row_stride(8192), 8448);
    assert_eq!(logits_row_stride(65536), 65792);
    assert_eq!(logits_row_stride(131072), 131328);
    assert_eq!(logits_row_stride(1_048_576), 1_048_832);
}

#[test]
fn dsa_topk_prefill_enumerate_matches_the_full_python_wire_schema_before_masking() {
    let cfg = dsa_topk_prefill_config();
    let grid = sweep::<DsaTopkPrefillSpec>(&cfg);
    let payloads = payloads_of::<DsaTopkPrefillSpec>(&cfg, &grid, DSA_TOPK_PREFILL_VLLM_BACKEND);

    assert_eq!(payloads.len(), 676);
    let expected_names = [
        "backend",
        "index_dtype",
        "logits_dtype",
        "logits_row_stride",
        "num_keys",
        "num_queries",
        "num_sequences",
        "span_mode",
        "top_k",
    ];
    for payload in &payloads {
        let names: Vec<&str> = payload.fields().keys().map(String::as_str).collect();
        assert_eq!(names, expected_names);
        assert_eq!(payload.fields().len(), 9);
    }

    dsa_topk_prefill_assert_payload(&payloads[0], DSA_TOPK_PREFILL_VLLM_BACKEND, 1, 1, 512);
    dsa_topk_prefill_assert_payload(
        dsa_topk_prefill_payload_for(&payloads, &grid, 128, 2048),
        DSA_TOPK_PREFILL_VLLM_BACKEND,
        128,
        2048,
        2304,
    );
    dsa_topk_prefill_assert_payload(
        dsa_topk_prefill_payload_for(&payloads, &grid, 128, 2049),
        DSA_TOPK_PREFILL_VLLM_BACKEND,
        128,
        2049,
        2560,
    );
    dsa_topk_prefill_assert_payload(
        dsa_topk_prefill_payload_for(&payloads, &grid, 128, 8192),
        DSA_TOPK_PREFILL_VLLM_BACKEND,
        128,
        8192,
        8448,
    );
    dsa_topk_prefill_assert_payload(
        dsa_topk_prefill_payload_for(&payloads, &grid, 1448, 1448),
        DSA_TOPK_PREFILL_VLLM_BACKEND,
        1448,
        1448,
        1792,
    );
    dsa_topk_prefill_assert_payload(
        dsa_topk_prefill_payload_for(&payloads, &grid, 2047, 2047),
        DSA_TOPK_PREFILL_VLLM_BACKEND,
        2047,
        2047,
        2304,
    );
    dsa_topk_prefill_assert_payload(
        payloads.last().unwrap(),
        DSA_TOPK_PREFILL_VLLM_BACKEND,
        65536,
        1_048_576,
        1_048_832,
    );
}

fn dsa_topk_prefill_payload_for<'a>(
    payloads: &'a [Wire],
    grid: &Grid,
    num_queries: u32,
    num_keys: u32,
) -> &'a Wire {
    let query_index = grid.axes()[0]
        .iter()
        .position(|&value| value == f64::from(num_queries))
        .unwrap();
    let key_index = grid.axes()[1]
        .iter()
        .position(|&value| value == f64::from(num_keys))
        .unwrap();
    &payloads[query_index * grid.axes()[1].len() + key_index]
}

fn dsa_topk_prefill_assert_payload(
    payload: &Wire,
    backend: &str,
    num_queries: u32,
    num_keys: u32,
    stride: u32,
) {
    let fields = payload.fields();
    assert_eq!(fields.get("backend"), Some(&Value::from(backend)));
    assert_eq!(fields.get("num_queries"), Some(&Value::from(num_queries)));
    assert_eq!(fields.get("num_keys"), Some(&Value::from(num_keys)));
    assert_eq!(fields.get("num_sequences"), Some(&Value::from(1_u32)));
    assert_eq!(fields.get("top_k"), Some(&Value::from(2048_u32)));
    assert_eq!(fields.get("logits_row_stride"), Some(&Value::from(stride)));
    assert_eq!(fields.get("logits_dtype"), Some(&Value::from("fp32")));
    assert_eq!(fields.get("index_dtype"), Some(&Value::from("int32")));
    assert_eq!(
        fields.get("span_mode"),
        Some(&Value::from("single_causal_tail"))
    );
    assert_eq!(payload.backend(), Some(backend));
}

#[test]
fn dsa_topk_prefill_dtype_tags_expose_fp32_compute_and_no_kv_dtype() {
    let cfg = dsa_topk_prefill_config();

    assert_eq!(cfg.compute_dtype(), Some(DType::Fp32));
    assert_eq!(cfg.kv_dtype(), None);
}

#[test]
fn keeps_a_distinct_profile_identity_from_the_glm_layout() {
    assert_eq!(
        DeepseekV4IndexerMqaLogitsDecodeSpec::KIND,
        "deepseek_v4_indexer_mqa_logits_decode"
    );
    assert_ne!(
        DeepseekV4IndexerMqaLogitsDecodeSpec::KIND,
        DsaPagedMqaLogitsDecodeSpec::KIND
    );
}

#[test]
fn one_large_request_stays_one_semantic_input() {
    let input = DeepseekV4IndexerPrefillKernelInput {
        query_context_pairs: vec![(8192, 1_048_576)],
    };
    assert_eq!(coords(&input), &[8192.0, 1_048_576.0, 1.0]);
}

#[test]
fn sweep_keeps_the_source_coarsening_boundary() {
    let config = DeepseekV4IndexerQRopeQuantKernelConfig {
        backends: vec!["vllm_cutedsl_fp8"],
        gpu_name: "NVIDIA H200".to_string(),
        num_heads: 64.into(),
        head_dim: 128.into(),
        rope_dim: 64.into(),
        max_model_len: 1_048_576,
        max_num_batched_tokens: 8192,
        positions_dtype: "int64".to_string(),
        q_dtype: DType::Bf16,
        rope_dtype: DType::Fp32,
        weight_dtype: DType::Bf16,
        q_output_dtype: DType::Fp8E4m3,
        weight_output_dtype: DType::Fp32,
        rope_style: "gptj_interleaved_trailing".to_string(),
        quant_mode: "per_token_head_fp8_pow2_ceil_folded_weight".to_string(),
    };
    let grid = sweep::<DeepseekV4IndexerQRopeQuantSpec>(&config);
    assert_eq!(&grid.axes()[0][9..13], &[384.0, 511.0, 512.0, 513.0]);
    let boundary =
        payloads_of::<DeepseekV4IndexerQRopeQuantSpec>(&config, &grid, "vllm_cutedsl_fp8");
    assert_eq!(boundary[10].fields()["num_tokens"], 511);
    assert_eq!(boundary[11].fields()["num_tokens"], 512);
}

#[test]
fn keeps_deepseek_k512_evidence_separate_and_brackets_its_cliffs() {
    assert_ne!(
        DeepseekV4IndexerTopkDecodeSpec::KIND,
        DsaPersistentTopkDecodeSpec::KIND
    );
    assert_eq!(batch_axis(), [1, 2, 4, 8, 16, 32, 64, 128, 256]);
    assert!(context_axis()
        .windows(3)
        .any(|values| values == [511, 512, 513]));
    assert!(context_axis()
        .windows(3)
        .any(|values| values == [32767, 32768, 32769]));
}

#[test]
fn launches_of_a_twin_kernel_share_the_wire_fields() {
    let config = dsa_paged_mqa_logits_decode_config(131072);
    let grid = sweep::<DeepseekV4IndexerMqaLogitsDecodeSpec>(&config);
    let twin = payloads_of::<DeepseekV4IndexerMqaLogitsDecodeSpec>(&config, &grid, "torch");
    let base = payloads_of::<DsaPagedMqaLogitsDecodeSpec>(&config, &grid, "torch");
    assert_eq!(twin.len(), base.len());
    assert_eq!(twin[7].fields(), base[7].fields());
}
