//! Attention and recurrent kernels: configurations, sweeps and wire payloads.

use serde_json::Value;
use std::collections::BTreeSet;
use timing::bridge::payload::{ArgsPayload, DType, PayloadValue, Real};
use timing::cache::{CacheKind, Extrapolation};
use timing::dims::Dim;
use timing::kernels::config::{describe_line, ConfigValue, KernelConfig};
use timing::kernels::engine::{CellPayloads, KernelSpec, SweepCoords};
use timing::kernels::flashinfer_attn_decode::{
    FlashinferAttnDecodeKernelConfig, FlashinferAttnDecodeKernelInput, FlashinferAttnDecodeSpec,
};
use timing::kernels::flashinfer_attn_prefill::{
    FlashinferAttnPrefillKernelConfig, FlashinferAttnPrefillKernelInput, FlashinferAttnPrefillSpec,
};
use timing::kernels::flashinfer_attn_rect::{
    FlashinferAttnRectKernelConfig, FlashinferAttnRectKernelInput, FlashinferAttnRectSpec,
};
use timing::kernels::gdn_causal_conv_decode::{
    GdnCausalConvDecodeKernelConfig, GdnCausalConvDecodeKernelInput, GdnCausalConvDecodeSpec,
};
use timing::kernels::gdn_causal_conv_prefill::{
    GdnCausalConvPrefillKernelConfig, GdnCausalConvPrefillKernelInput, GdnCausalConvPrefillSpec,
    MAX_TOTAL_TOKENS,
};
use timing::kernels::gdn_chunk_delta_rule::{
    GdnChunkDeltaRuleKernelConfig, GdnChunkDeltaRuleKernelInput, GdnChunkDeltaRuleSpec, MAX_TOKENS,
};
use timing::sweep::{Ratio, SweepGrid};

/// A stand-in for the token axis that kernels share.
fn tokens() -> Vec<u32> {
    let mut points = vec![32, 64, 128, 256];
    points.extend((384..=4096).step_by(128));
    points.extend((4352..=8192).step_by(256));
    points.extend((9216..=16384).step_by(1024));
    points.extend([20480, 24576, 32768, 49152, 65536]);
    points
}

/// A sweep with its axes as real numbers.
struct Grid {
    inner: SweepGrid,
    axes: Vec<Vec<f64>>,
}

impl Grid {
    fn new(inner: SweepGrid) -> Self {
        let units = inner.units().clone();
        let axes = inner
            .axes()
            .iter()
            .zip(units)
            .map(|(axis, unit)| axis.iter().map(|&x| f64::from(x) / f64::from(unit)).collect())
            .collect();
        Grid { inner, axes }
    }

    fn axes(&self) -> &Vec<Vec<f64>> {
        &self.axes
    }
}

fn sweep<K: KernelSpec>(config: &K::Config) -> Grid {
    Grid::new(K::sweep_grid(config, &tokens()))
}

fn mask_of<K: KernelSpec>(config: &K::Config, grid: &Grid) -> Vec<bool> {
    K::infeasible_mask(config, &grid.inner)
}

/// A wire payload with its fields as JSON.
struct Wire {
    payload: ArgsPayload,
    fields: serde_json::Map<String, Value>,
}

impl Wire {
    fn new(payload: ArgsPayload) -> Self {
        let fields = payload
            .fields()
            .entries()
            .iter()
            .map(|(name, value)| (name.clone(), wire_value(value)))
            .collect();
        Wire { payload, fields }
    }

    fn fields(&self) -> &serde_json::Map<String, Value> {
        &self.fields
    }

    fn backend(&self) -> Option<&str> {
        self.payload.backend()
    }
}

fn real_value(real: &Real) -> f64 {
    match real {
        Real::Bits(bits) => f64::from_bits(*bits),
        Real::Reciprocal(n) => 1.0 / f64::from(*n),
        Real::ReciprocalRoot(n) => 1.0 / f64::from(*n).sqrt(),
    }
}

fn wire_value(value: &PayloadValue) -> Value {
    match value {
        PayloadValue::Flag(flag) => Value::from(*flag),
        PayloadValue::Number(number) => Value::from(*number),
        PayloadValue::Real(real) => Value::from(real_value(real)),
        PayloadValue::Text(text) => Value::from(text.as_str()),
        PayloadValue::Numbers(numbers) => Value::from(numbers.clone()),
        PayloadValue::Pairs(pairs) => {
            Value::from(pairs.iter().map(|&(a, b)| vec![a, b]).collect::<Vec<_>>())
        }
    }
}

fn payloads_of<K: CellPayloads>(config: &K::Config, grid: &Grid, backend: &str) -> Vec<Wire> {
    K::enumerate(config, &grid.inner, backend).into_iter().map(Wire::new).collect()
}

fn coords(input: &impl SweepCoords) -> Vec<f64> {
    ratios(input.coords())
}

fn ratios(coords: Vec<Ratio>) -> Vec<f64> {
    coords.into_iter().map(|r| r.numerator as f64 / r.denominator as f64).collect()
}

fn json(text: &str) -> Value {
    serde_json::from_str(text).unwrap()
}

fn dimension_value(dim: &Dim) -> Value {
    let mut bindings = serde_json::Map::new();
    for (name, value) in dim.bindings().entries() {
        bindings.insert(name.clone(), Value::from(*value));
    }
    let mut fields = serde_json::Map::new();
    fields.insert("value".to_string(), Value::from(dim.get()));
    let expression = if dim.is_literal() { Value::Null } else { Value::from(dim.formula()) };
    fields.insert("expression".to_string(), expression);
    fields.insert("bindings".to_string(), Value::Object(bindings));
    Value::Object(fields)
}

fn config_value(value: &ConfigValue) -> Value {
    match value {
        ConfigValue::Text(text) => Value::from(text.as_str()),
        ConfigValue::Number(number) => Value::from(*number),
        ConfigValue::Flag(flag) => Value::from(*flag),
        ConfigValue::Precision(dtype) => Value::from(dtype.as_str()),
        ConfigValue::Link(fabric) => Value::from(fabric.as_str()),
        ConfigValue::Dimension(dim) => dimension_value(dim),
        ConfigValue::Names(names) => Value::from(names.clone()),
        ConfigValue::Numbers(numbers) => Value::from(numbers.clone()),
        ConfigValue::Lists(lists) => Value::from(lists.clone()),
        ConfigValue::Corpus(corpus) => Value::from(corpus.data_file.as_str()),
        ConfigValue::Variant { tag, fields } if fields.is_empty() => Value::from(*tag),
        ConfigValue::Variant { tag, fields } => {
            let mut inner = serde_json::Map::new();
            for (name, number) in fields {
                inner.insert(name.to_string(), Value::from(*number));
            }
            let mut outer = serde_json::Map::new();
            outer.insert(tag.to_string(), Value::Object(inner));
            Value::Object(outer)
        }
    }
}

fn described<C: KernelConfig>(config: &C) -> Value {
    let mut fields = serde_json::Map::new();
    for field in config.describe_config() {
        fields.insert(field.name.to_string(), config_value(&field.value));
    }
    Value::Object(fields)
}


fn flashinfer_attn_decode_config() -> FlashinferAttnDecodeKernelConfig {
    FlashinferAttnDecodeKernelConfig {
        backends: vec!["fa2", "fa3", "trt", "cudnn"],
        gpu_name: "H100".to_string(),
        num_qo_heads: 32,
        num_kv_heads: 8,
        head_dim: 128,
        q_dtype: DType::Bf16,
        kv_dtype: DType::Bf16,
        o_dtype: DType::Bf16,
    }
}

#[test]
fn flashinfer_attn_decode_config_identity_includes_backends_and_attention_dims() {
    let cfg = flashinfer_attn_decode_config();
    assert_eq!(cfg.backends, vec!["fa2", "fa3", "trt", "cudnn"]);
    assert_eq!(cfg.num_qo_heads, 32);
    assert_eq!(cfg.num_kv_heads, 8);
    assert_eq!(cfg.head_dim, 128);
    assert_eq!(cfg.q_dtype, DType::Bf16);
    assert_eq!(cfg.kv_dtype, DType::Bf16);
    assert_eq!(cfg.o_dtype, DType::Bf16);
}

#[test]
fn flashinfer_attn_decode_describe_config_renders_tidy_field_list() {
    assert_eq!(
        describe_line(&flashinfer_attn_decode_config().describe_config()),
        r#"backends=["fa2", "fa3", "trt", "cudnn"] gpu_name="H100" num_qo_heads=32 num_kv_heads=8 head_dim=128 q_dtype=Bf16 kv_dtype=Bf16 o_dtype=Bf16"#
    );
}

#[test]
fn flashinfer_attn_decode_input_sweep_coords_flatten_both_axes_in_order() {
    let input = FlashinferAttnDecodeKernelInput {
        batch_size: 64,
        total_tokens: 262144,
    };
    assert_eq!(coords(&input), &[64.0, 262144.0]);
}

#[test]
fn flashinfer_attn_decode_cache_kind_is_two_dimensional_linear() {
    assert_eq!(
        FlashinferAttnDecodeSpec::cache_kind("fa2"),
        CacheKind::Cache2DLinear(Extrapolation::Product)
    );
}

#[test]
fn sweep_grid_batch_pow2_and_total_tokens_to_4m() {
    let grid = sweep::<FlashinferAttnDecodeSpec>(&flashinfer_attn_decode_config());
    assert_eq!(grid.axes().len(), 2);
    assert_eq!(grid.axes()[0][0], 1.0);
    assert_eq!(*grid.axes()[0].last().unwrap(), 256.0);
    assert_eq!(grid.axes()[1][0], 32.0);
    assert_eq!(*grid.axes()[1].last().unwrap(), 4194304.0);
}

#[test]
fn flashinfer_attn_decode_enumerate_emits_payload_with_all_wire_fields() {
    let cfg = flashinfer_attn_decode_config();
    let grid = sweep::<FlashinferAttnDecodeSpec>(&cfg);
    let payloads = payloads_of::<FlashinferAttnDecodeSpec>(&cfg, &grid, "fa2");

    assert_eq!(payloads.len(), grid.axes()[0].len() * grid.axes()[1].len());
    let first = &payloads[0];
    let fields = first.fields();
    assert_eq!(fields.len(), 9);
    assert_eq!(fields.get("backend"), Some(&Value::from("fa2")));
    assert_eq!(fields.get("num_qo_heads"), Some(&Value::from(32_u32)));
    assert_eq!(fields.get("num_kv_heads"), Some(&Value::from(8_u32)));
    assert_eq!(fields.get("head_dim"), Some(&Value::from(128_u32)));
    assert_eq!(fields.get("q_dtype"), Some(&Value::from("bf16")));
    assert_eq!(fields.get("kv_dtype"), Some(&Value::from("bf16")));
    assert_eq!(fields.get("o_dtype"), Some(&Value::from("bf16")));
    assert_eq!(fields.get("batch_size"), Some(&Value::from(1_u32)));
    assert_eq!(fields.get("total_tokens"), Some(&Value::from(32_u32)));
    assert_eq!(first.backend(), Some("fa2"));
}

fn flashinfer_attn_prefill_config() -> FlashinferAttnPrefillKernelConfig {
    FlashinferAttnPrefillKernelConfig {
        backends: vec!["fa2", "fa3", "trt", "cudnn"],
        gpu_name: "H100".to_string(),
        num_qo_heads: 32.into(),
        num_kv_heads: 8.into(),
        head_dim: 128.into(),
        q_dtype: DType::Bf16,
        kv_dtype: DType::Bf16,
        o_dtype: DType::Bf16,
    }
}

#[test]
fn flashinfer_attn_prefill_config_identity_includes_backends_and_attention_dims() {
    let cfg = flashinfer_attn_prefill_config();
    assert_eq!(cfg.backends, vec!["fa2", "fa3", "trt", "cudnn"]);
    assert_eq!(cfg.num_qo_heads, 32);
    assert_eq!(cfg.num_kv_heads, 8);
    assert_eq!(cfg.head_dim, 128);
    assert_eq!(cfg.q_dtype, DType::Bf16);
    assert_eq!(cfg.kv_dtype, DType::Bf16);
    assert_eq!(cfg.o_dtype, DType::Bf16);
}

#[test]
fn flashinfer_attn_prefill_describe_config_renders_tidy_field_list() {
    assert_eq!(
        described(&flashinfer_attn_prefill_config()),
        json(r#"{
            "backends": ["fa2", "fa3", "trt", "cudnn"], "gpu_name": "H100",
            "num_qo_heads": {"value": 32, "expression": null, "bindings": {}},
            "num_kv_heads": {"value": 8, "expression": null, "bindings": {}},
            "head_dim": {"value": 128, "expression": null, "bindings": {}},
            "q_dtype": "bf16", "kv_dtype": "bf16", "o_dtype": "bf16"
        }"#)
    );
}

#[test]
fn input_coords_project_physical_k_q_to_a_b() {
    let input = FlashinferAttnPrefillKernelInput {
        prefix_len: 2048,
        append_len: 512,
    };
    assert_eq!(coords(&input), &[2304.0, 512.0]);
}

#[test]
fn coord_field_names_label_the_cache_axes() {
    assert_eq!(
        FlashinferAttnPrefillKernelInput::coord_field_names(),
        ["effective_kv_tokens", "append_len"]
    );
}

#[test]
fn flashinfer_attn_prefill_cache_kind_is_two_dimensional_linear() {
    assert_eq!(
        FlashinferAttnPrefillSpec::cache_kind("fa2"),
        CacheKind::Cache2DLinear(Extrapolation::Product)
    );
}

#[test]
fn sweep_grid_is_a_b_axes_with_dense_low_q_segment() {
    let grid = sweep::<FlashinferAttnPrefillSpec>(&flashinfer_attn_prefill_config());
    assert_eq!(grid.axes().len(), 2);
    assert_eq!(grid.axes()[0][0], 64.0);
    assert_eq!(*grid.axes()[0].last().unwrap(), 65536.0);
    assert_eq!(grid.axes()[0].len(), 11);
    assert_eq!(grid.axes()[1][0], 128.0);
    assert_eq!(*grid.axes()[1].last().unwrap(), 32768.0);
    assert_eq!(grid.axes()[1].len(), 19);
    for q in [384.0, 640.0, 768.0, 896.0, 1280.0, 1792.0, 2560.0, 3584.0] {
        assert!(grid.axes()[1].contains(&q), "B axis must include {q}");
    }
}

#[test]
fn infeasible_mask_drops_a_lt_half_b_cells() {
    let cfg = flashinfer_attn_prefill_config();
    let grid = sweep::<FlashinferAttnPrefillSpec>(&cfg);
    let mask = mask_of::<FlashinferAttnPrefillSpec>(&cfg, &grid);
    let (a_ax, b_ax) = (&grid.axes()[0], &grid.axes()[1]);
    assert_eq!(mask.len(), a_ax.len() * b_ax.len());
    for (i, &a) in a_ax.iter().enumerate() {
        for (j, &b) in b_ax.iter().enumerate() {
            assert_eq!(mask[i * b_ax.len() + j], a < b / 2.0, "A={a} B={b}");
        }
    }
    assert!(mask.iter().any(|&m| m));
    assert!(mask.iter().any(|&m| !m));
}

#[test]
fn flashinfer_attn_prefill_enumerate_emits_payload_with_all_wire_fields() {
    let cfg = flashinfer_attn_prefill_config();
    let grid = sweep::<FlashinferAttnPrefillSpec>(&cfg);
    let payloads = payloads_of::<FlashinferAttnPrefillSpec>(&cfg, &grid, "fa2");
    assert_eq!(payloads.len(), grid.axes()[0].len() * grid.axes()[1].len());
    let first = &payloads[0];
    let fields = first.fields();
    assert_eq!(fields.len(), 9);
    assert_eq!(fields.get("backend"), Some(&Value::from("fa2")));
    assert_eq!(fields.get("num_qo_heads"), Some(&Value::from(32_u32)));
    assert_eq!(fields.get("num_kv_heads"), Some(&Value::from(8_u32)));
    assert_eq!(fields.get("head_dim"), Some(&Value::from(128_u32)));
    assert_eq!(fields.get("q_dtype"), Some(&Value::from("bf16")));
    assert_eq!(fields.get("kv_dtype"), Some(&Value::from("bf16")));
    assert_eq!(fields.get("o_dtype"), Some(&Value::from("bf16")));
    assert_eq!(fields.get("prefix_len"), Some(&Value::from(0_u32)));
    assert_eq!(fields.get("append_len"), Some(&Value::from(128_u32)));
    assert_eq!(first.backend(), Some("fa2"));
}

fn flashinfer_attn_rect_config() -> FlashinferAttnRectKernelConfig {
    FlashinferAttnRectKernelConfig {
        backends: vec!["fa2", "fa3", "trt", "cudnn"],
        gpu_name: "H100".to_string(),
        num_qo_heads: 32,
        num_kv_heads: 8,
        head_dim: 128,
        q_dtype: DType::Bf16,
        kv_dtype: DType::Bf16,
        o_dtype: DType::Bf16,
    }
}

#[test]
fn flashinfer_attn_rect_config_identity_includes_backends_and_attention_dims() {
    let cfg = flashinfer_attn_rect_config();
    assert_eq!(cfg.backends, vec!["fa2", "fa3", "trt", "cudnn"]);
    assert_eq!(cfg.num_qo_heads, 32);
    assert_eq!(cfg.num_kv_heads, 8);
    assert_eq!(cfg.head_dim, 128);
    assert_eq!(cfg.q_dtype, DType::Bf16);
    assert_eq!(cfg.kv_dtype, DType::Bf16);
    assert_eq!(cfg.o_dtype, DType::Bf16);
}

#[test]
fn flashinfer_attn_rect_describe_config_renders_tidy_field_list() {
    assert_eq!(
        describe_line(&flashinfer_attn_rect_config().describe_config()),
        r#"backends=["fa2", "fa3", "trt", "cudnn"] gpu_name="H100" num_qo_heads=32 num_kv_heads=8 head_dim=128 q_dtype=Bf16 kv_dtype=Bf16 o_dtype=Bf16"#
    );
}

#[test]
fn flashinfer_attn_rect_input_sweep_coords_flatten_both_axes_in_order() {
    let input = FlashinferAttnRectKernelInput {
        q_len: 1024,
        kv_len: 256,
    };
    assert_eq!(coords(&input), &[1024.0, 256.0]);
}

#[test]
fn flashinfer_attn_rect_cache_kind_is_two_dimensional_linear() {
    assert_eq!(
        FlashinferAttnRectSpec::cache_kind("fa2"),
        CacheKind::Cache2DLinear(Extrapolation::Product)
    );
}

#[test]
fn sweep_grid_both_axes_are_token_curves() {
    let grid = sweep::<FlashinferAttnRectSpec>(&flashinfer_attn_rect_config());
    assert_eq!(grid.axes().len(), 2);
    assert_eq!(grid.axes()[0][0], 32.0);
    assert_eq!(grid.axes()[1][0], 32.0);
}

#[test]
fn flashinfer_attn_rect_enumerate_emits_payload_with_all_wire_fields() {
    let cfg = flashinfer_attn_rect_config();
    let grid = sweep::<FlashinferAttnRectSpec>(&cfg);
    let payloads = payloads_of::<FlashinferAttnRectSpec>(&cfg, &grid, "fa2");

    assert_eq!(payloads.len(), grid.axes()[0].len() * grid.axes()[1].len());
    let first = &payloads[0];
    let fields = first.fields();
    assert_eq!(fields.len(), 9);
    assert_eq!(fields.get("backend"), Some(&Value::from("fa2")));
    assert_eq!(fields.get("num_qo_heads"), Some(&Value::from(32_u32)));
    assert_eq!(fields.get("num_kv_heads"), Some(&Value::from(8_u32)));
    assert_eq!(fields.get("head_dim"), Some(&Value::from(128_u32)));
    assert_eq!(fields.get("q_dtype"), Some(&Value::from("bf16")));
    assert_eq!(fields.get("kv_dtype"), Some(&Value::from("bf16")));
    assert_eq!(fields.get("o_dtype"), Some(&Value::from("bf16")));
    assert!(fields.get("q_len").and_then(Value::as_u64).is_some());
    assert!(fields.get("kv_len").and_then(Value::as_u64).is_some());
    assert_eq!(first.backend(), Some("fa2"));
}

fn gdn_causal_conv_decode_config() -> GdnCausalConvDecodeKernelConfig {
    GdnCausalConvDecodeKernelConfig {
        backends: vec!["torch", "vllm_triton"],
        gpu_name: "NVIDIA H200".to_string(),
        channels: 8192.into(),
        kernel_size: 4.into(),
        dtype: DType::Bf16,
        state_dtype: DType::Bf16,
    }
}

#[test]
fn config_identity_and_description_match_the_python_handoff() {
    let cfg = gdn_causal_conv_decode_config();

    assert_eq!(GdnCausalConvDecodeSpec::KIND, "gdn_causal_conv_decode");
    assert_eq!(
        GdnCausalConvDecodeSpec::profile_kind(),
        "gdn_causal_conv_decode"
    );
    assert_eq!(cfg.backends(), &["torch", "vllm_triton"]);
    assert_eq!(cfg.gpu_name(), "NVIDIA H200");
    assert_eq!(cfg.channels, 8192);
    assert_eq!(cfg.kernel_size, 4);
    assert_eq!(cfg.dtype, DType::Bf16);
    assert_eq!(cfg.state_dtype, DType::Bf16);
    assert_eq!(
        described(&cfg),
        json(r#"{
            "backends": ["torch", "vllm_triton"],
            "gpu_name": "NVIDIA H200",
            "channels": {"value": 8192, "expression": null, "bindings": {}},
            "kernel_size": {"value": 4, "expression": null, "bindings": {}},
            "dtype": "bf16",
            "state_dtype": "bf16"
        }"#)
    );
}

#[test]
fn dtype_tag_exposes_compute_but_not_state_as_kv() {
    let cfg = gdn_causal_conv_decode_config();

    assert_eq!(cfg.compute_dtype(), Some(DType::Bf16));
    assert_eq!(cfg.kv_dtype(), None);
}

#[test]
fn input_coords_field_names_serde_and_slot_payload_are_exact() {
    let input = GdnCausalConvDecodeKernelInput { batch_size: 32 };

    assert_eq!(coords(&input), &[32.0]);
    assert_eq!(
        GdnCausalConvDecodeKernelInput::coord_field_names(),
        &["batch_size"]
    );
}

#[test]
fn sweep_is_exactly_the_frozen_batch_axis_without_mask() {
    let cfg = gdn_causal_conv_decode_config();
    let grid = sweep::<GdnCausalConvDecodeSpec>(&cfg);

    assert_eq!(grid.axes().len(), 1);
    assert_eq!(
        grid.axes()[0],
        [1.0, 2.0, 4.0, 8.0, 16.0, 32.0, 64.0, 128.0, 256.0]
    );
    assert!(mask_of::<GdnCausalConvDecodeSpec>(&cfg, &grid).is_empty());
}

#[test]
fn every_backend_uses_linear_1d_cache() {
    for backend in ["torch", "vllm_triton"] {
        assert_eq!(
            GdnCausalConvDecodeSpec::cache_kind(backend),
            CacheKind::Cache1DLinear
        );
    }
}

#[test]
fn enumerate_emits_exact_python_fields_and_production_values() {
    let cfg = gdn_causal_conv_decode_config();
    let grid = sweep::<GdnCausalConvDecodeSpec>(&cfg);
    let payloads = payloads_of::<GdnCausalConvDecodeSpec>(&cfg, &grid, "vllm_triton");

    assert_eq!(payloads.len(), 9);
    for payload in &payloads {
        let names: Vec<&str> = payload.fields().keys().map(String::as_str).collect();
        assert_eq!(
            names,
            [
                "backend",
                "batch_size",
                "channels",
                "dtype",
                "kernel_size",
                "state_dtype",
            ]
        );
        assert_eq!(payload.fields().len(), 6);
        assert_eq!(payload.backend(), Some("vllm_triton"));
    }

    let first = payloads[0].fields();
    assert_eq!(first.get("backend"), Some(&Value::from("vllm_triton")));
    assert_eq!(first.get("batch_size"), Some(&Value::from(1_u32)));
    assert_eq!(first.get("channels"), Some(&Value::from(8192_u32)));
    assert_eq!(first.get("kernel_size"), Some(&Value::from(4_u32)));
    assert_eq!(first.get("dtype"), Some(&Value::from("bf16")));
    assert_eq!(first.get("state_dtype"), Some(&Value::from("bf16")));
    assert_eq!(payloads[8].fields()["batch_size"], Value::from(256_u32));
}

fn gdn_causal_conv_prefill_config() -> GdnCausalConvPrefillKernelConfig {
    GdnCausalConvPrefillKernelConfig {
        backends: vec!["torch", "vllm_triton"],
        gpu_name: "NVIDIA H200".to_string(),
        channels: 8192.into(),
        kernel_size: 4.into(),
        dtype: DType::Bf16,
        state_dtype: DType::Bf16,
    }
}

#[test]
fn config_identity_description_serde_and_dtype_tags_match_handoff() {
    let cfg = gdn_causal_conv_prefill_config();

    assert_eq!(GdnCausalConvPrefillSpec::KIND, "gdn_causal_conv_prefill");
    assert_eq!(
        GdnCausalConvPrefillSpec::profile_kind(),
        "gdn_causal_conv_prefill"
    );
    assert_eq!(cfg.backends(), &["torch", "vllm_triton"]);
    assert_eq!(cfg.gpu_name(), "NVIDIA H200");
    assert_eq!(cfg.channels, 8192);
    assert_eq!(cfg.kernel_size, 4);
    assert_eq!(cfg.dtype, DType::Bf16);
    assert_eq!(cfg.state_dtype, DType::Bf16);
    assert_eq!(cfg.compute_dtype(), Some(DType::Bf16));
    assert_eq!(cfg.kv_dtype(), None);
    assert_eq!(
        described(&cfg),
        json(r#"{
            "backends": ["torch", "vllm_triton"],
            "gpu_name": "NVIDIA H200",
            "channels": {"value": 8192, "expression": null, "bindings": {}},
            "kernel_size": {"value": 4, "expression": null, "bindings": {}},
            "dtype": "bf16",
            "state_dtype": "bf16"
        }"#)
    );
}

#[test]
fn physical_input_serde_coords_names_and_slot_payload_are_exact() {
    let input = GdnCausalConvPrefillKernelInput {
        batch_size: 3,
        sequence_length: 17,
    };

    assert_eq!(coords(&input), &[3.0, 17.0]);
    assert_eq!(
        GdnCausalConvPrefillKernelInput::coord_field_names(),
        &["batch_size", "sequence_length"]
    );
}

#[test]
fn sweep_is_exactly_nine_by_twenty_physical_axes() {
    let grid = sweep::<GdnCausalConvPrefillSpec>(&gdn_causal_conv_prefill_config());

    assert_eq!(grid.axes().len(), 2);
    assert_eq!(
        grid.axes()[0],
        [1.0, 2.0, 4.0, 8.0, 16.0, 32.0, 64.0, 128.0, 256.0]
    );
    assert_eq!(
        grid.axes()[1],
        [
            1.0, 2.0, 4.0, 8.0, 9.0, 16.0, 32.0, 64.0, 128.0, 256.0, 512.0, 1024.0, 2048.0,
            4096.0, 8192.0, 16_384.0, 32_768.0, 65_536.0, 131_072.0, 262_144.0,
        ]
    );
    assert_eq!(
        grid.axes()[1]
            .iter()
            .filter(|&&length| length == 9.0)
            .count(),
        1
    );
    assert_eq!(grid.axes()[0].len() * grid.axes()[1].len(), 180);
}

#[test]
fn infeasible_mask_is_exactly_the_checkpoint_total_token_cap() {
    let cfg = gdn_causal_conv_prefill_config();
    let grid = sweep::<GdnCausalConvPrefillSpec>(&cfg);
    let mask = mask_of::<GdnCausalConvPrefillSpec>(&cfg, &grid);
    let sequence_axis = &grid.axes()[1];

    assert_eq!(mask.len(), 180);
    assert_eq!(mask.iter().filter(|&&masked| masked).count(), 36);
    assert_eq!(mask.iter().filter(|&&masked| !masked).count(), 144);
    for (batch_index, &batch) in grid.axes()[0].iter().enumerate() {
        for (length_index, &sequence_length) in sequence_axis.iter().enumerate() {
            let expected_masked = (batch as u64) * (sequence_length as u64) > MAX_TOTAL_TOKENS;
            assert_eq!(
                mask[batch_index * sequence_axis.len() + length_index],
                expected_masked,
                "B={batch} L={sequence_length}"
            );
        }
    }
    let length_9_index = sequence_axis
        .iter()
        .position(|&value| value == 9.0)
        .unwrap();
    for batch_index in 0..grid.axes()[0].len() {
        assert!(!mask[batch_index * sequence_axis.len()]);
        assert!(!mask[batch_index * sequence_axis.len() + length_9_index]);
    }
    assert!(!mask[19]);
    assert!(mask[39]);
    assert!(!mask[8 * 20 + 11]);
    assert!(mask[8 * 20 + 12]);
}

#[test]
fn both_backends_use_linear_2d_cache() {
    for backend in ["torch", "vllm_triton"] {
        assert_eq!(
            GdnCausalConvPrefillSpec::cache_kind(backend),
            CacheKind::Cache2DLinear(Extrapolation::Product)
        );
    }
}

#[test]
fn enumerate_emits_exact_python_fields_and_backend_routing() {
    let cfg = gdn_causal_conv_prefill_config();
    let grid = sweep::<GdnCausalConvPrefillSpec>(&cfg);
    let payloads = payloads_of::<GdnCausalConvPrefillSpec>(&cfg, &grid, "vllm_triton");

    assert_eq!(payloads.len(), 180);
    let expected_names = BTreeSet::from([
        "backend",
        "batch_size",
        "channels",
        "dtype",
        "kernel_size",
        "sequence_length",
        "state_dtype",
    ]);
    for payload in &payloads {
        let names = payload
            .fields()
            .keys()
            .map(String::as_str)
            .collect::<BTreeSet<_>>();
        assert_eq!(names, expected_names);
        assert_eq!(payload.fields().len(), 7);
        assert_eq!(payload.backend(), Some("vllm_triton"));
        assert_eq!(payload.fields()["channels"], Value::from(8192_u32));
        assert_eq!(payload.fields()["kernel_size"], Value::from(4_u32));
        assert_eq!(payload.fields()["dtype"], Value::from("bf16"));
        assert_eq!(payload.fields()["state_dtype"], Value::from("bf16"));
    }
}

#[test]
fn enumeration_is_physical_and_preserves_prior_rows_plus_nine_breakpoints() {
    let cfg = gdn_causal_conv_prefill_config();
    let grid = sweep::<GdnCausalConvPrefillSpec>(&cfg);
    let mask = mask_of::<GdnCausalConvPrefillSpec>(&cfg, &grid);
    let payloads = payloads_of::<GdnCausalConvPrefillSpec>(&cfg, &grid, "vllm_triton");
    let mut cache_cells = Vec::new();
    for &batch in &grid.axes()[0] {
        for &sequence_length in &grid.axes()[1] {
            cache_cells.push((batch as u64, sequence_length as u64));
        }
    }
    let mut feasible = BTreeSet::new();

    for ((payload, &masked), &(batch, sequence_length)) in
        payloads.iter().zip(&mask).zip(&cache_cells)
    {
        let payload_batch = payload.fields()["batch_size"].as_u64().unwrap();
        assert_eq!(payload_batch, batch);
        assert_eq!(
            payload.fields()["sequence_length"].as_u64().unwrap(),
            sequence_length
        );
        assert_eq!(
            masked,
            batch * sequence_length > MAX_TOTAL_TOKENS,
            "B={batch} L={sequence_length}"
        );
        if !masked {
            feasible.insert((batch, sequence_length));
        }
    }

    let prior_feasible = (0_u32..=8)
        .flat_map(|batch_log2| {
            (0_u32..=(18 - batch_log2))
                .map(move |length_log2| (1_u64 << batch_log2, 1_u64 << length_log2))
        })
        .collect::<BTreeSet<_>>();
    assert_eq!(prior_feasible.len(), 135);
    assert!(prior_feasible.is_subset(&feasible));
    assert_eq!(feasible.len(), 144);
    let added = feasible
        .difference(&prior_feasible)
        .copied()
        .collect::<Vec<_>>();
    assert_eq!(
        added,
        [1_u64, 2, 4, 8, 16, 32, 64, 128, 256]
            .into_iter()
            .map(|batch| (batch, 9))
            .collect::<Vec<_>>()
    );
    assert_eq!(payloads[8].fields()["batch_size"], Value::from(1_u32));
    assert_eq!(
        payloads[8].fields()["sequence_length"],
        Value::from(128_u32)
    );
    assert_eq!(payloads[171].fields()["batch_size"], Value::from(256_u32));
    assert_eq!(
        payloads[171].fields()["sequence_length"],
        Value::from(1024_u32)
    );
    assert!(!mask[8]);
    assert!(!mask[171]);
    assert_eq!(payloads[179].fields()["batch_size"], Value::from(256_u32));
    assert_eq!(
        payloads[179].fields()["sequence_length"],
        Value::from(262_144_u32)
    );
    assert!(mask[179]);
}

fn gdn_chunk_delta_rule_config() -> GdnChunkDeltaRuleKernelConfig {
    GdnChunkDeltaRuleKernelConfig {
        backends: vec!["flashinfer"],
        gpu_name: "NVIDIA H200".to_string(),
        num_key_heads: 16.into(),
        num_heads: 32.into(),
        key_head_dim: 128.into(),
        value_head_dim: 128.into(),
        dtype: DType::Bf16,
    }
}

#[test]
fn config_identity_description_and_serde_round_trip_are_exact() {
    let cfg = gdn_chunk_delta_rule_config();
    assert_eq!(GdnChunkDeltaRuleSpec::KIND, "gdn_chunk_delta_rule");
    assert_eq!(
        GdnChunkDeltaRuleSpec::profile_kind(),
        "gdn_chunk_delta_rule"
    );
    assert_eq!(cfg.backends(), &["flashinfer"]);
    assert_eq!(cfg.gpu_name(), "NVIDIA H200");
    assert_eq!(cfg.compute_dtype(), Some(DType::Bf16));
    assert_eq!(cfg.kv_dtype(), None);
    assert_eq!(
        described(&cfg),
        json(r#"{
            "backends": ["flashinfer"],
            "gpu_name": "NVIDIA H200",
            "num_key_heads": {"value": 16, "expression": null, "bindings": {}},
            "num_heads": {"value": 32, "expression": null, "bindings": {}},
            "key_head_dim": {"value": 128, "expression": null, "bindings": {}},
            "value_head_dim": {"value": 128, "expression": null, "bindings": {}},
            "dtype": "bf16"
        }"#)
    );}

#[test]
fn cache_coords_are_longest_sequence_and_full_sequence_count() {
    let cfg = gdn_chunk_delta_rule_config();
    let coords = |num_tokens, max_sequence_length| {
        ratios(GdnChunkDeltaRuleSpec::cache_coords(
            &cfg,
            &GdnChunkDeltaRuleKernelInput {
                num_tokens,
                max_sequence_length,
            },
        ))
    };
    assert_eq!(coords(4096, 4096), &[4096.0, 1.0]);
    assert_eq!(coords(16384, 4096), &[4096.0, 4.0]);
    assert_eq!(coords(8185, 8163), &[8163.0, 8185.0 / 8163.0]);
}

#[test]
fn physical_input_serde_names_and_slot_payload_are_exact() {
    let input = GdnChunkDeltaRuleKernelInput {
        num_tokens: 8185,
        max_sequence_length: 8163,
    };
    assert_eq!(
        GdnChunkDeltaRuleKernelInput::coord_field_names(),
        &["num_tokens", "max_sequence_length"]
    );
    assert_eq!(coords(&input), &[8163.0, 8185.0 / 8163.0]);
}

#[test]
fn sweep_axes_mask_and_enumerated_rows_respect_the_token_ceiling() {
    let cfg = gdn_chunk_delta_rule_config();
    let grid = sweep::<GdnChunkDeltaRuleSpec>(&cfg);
    assert_eq!(
        grid.axes()[0],
        vec![64.0, 128.0, 256.0, 512.0, 1024.0, 2048.0, 4096.0, 8192.0, 16384.0]
    );
    assert_eq!(grid.axes()[1], vec![1.0, 2.0, 4.0, 8.0, 16.0]);
    assert_eq!(grid.axes().iter().map(Vec::len).product::<usize>(), 45);

    let mask = mask_of::<GdnChunkDeltaRuleSpec>(&cfg, &grid);
    assert_eq!(mask.len(), 45);
    assert_eq!(mask.iter().filter(|&&masked| masked).count(), 3);

    let payloads = payloads_of::<GdnChunkDeltaRuleSpec>(&cfg, &grid, "flashinfer");
    for (payload, &masked) in payloads.iter().zip(&mask) {
        let fields = payload.fields();
        let num_tokens = fields["num_tokens"].as_u64().unwrap();
        let max_sequence_length = fields["max_sequence_length"].as_u64().unwrap();
        assert_eq!(num_tokens % max_sequence_length, 0);
        assert_eq!(masked, num_tokens > MAX_TOKENS);
    }
}

#[test]
fn every_payload_carries_exactly_the_python_args_schema() {
    let cfg = gdn_chunk_delta_rule_config();
    let grid = sweep::<GdnChunkDeltaRuleSpec>(&cfg);
    let expected = BTreeSet::from([
        "backend",
        "dtype",
        "key_head_dim",
        "max_sequence_length",
        "num_heads",
        "num_key_heads",
        "num_tokens",
        "value_head_dim",
    ]);
    let mut found_qwen_anchor = false;
    for payload in payloads_of::<GdnChunkDeltaRuleSpec>(&cfg, &grid, "flashinfer") {
        assert_eq!(
            payload
                .fields()
                .keys()
                .map(String::as_str)
                .collect::<BTreeSet<_>>(),
            expected
        );
        let fields = payload.fields();
        assert_eq!(fields["backend"], "flashinfer");
        assert_eq!(fields["num_key_heads"], 16);
        assert_eq!(fields["num_heads"], 32);
        assert_eq!(fields["key_head_dim"], 128);
        assert_eq!(fields["value_head_dim"], 128);
        assert_eq!(fields["dtype"], "bf16");
        found_qwen_anchor |=
            fields["num_tokens"] == 8192 && fields["max_sequence_length"] == 8192;
    }
    assert!(found_qwen_anchor);
}

#[test]
fn the_single_backend_uses_product_extrapolated_cache2d() {
    assert_eq!(
        GdnChunkDeltaRuleSpec::cache_kind("flashinfer"),
        CacheKind::Cache2DLinear(Extrapolation::Product)
    );
}
