//! Dense, grouped and quantising kernels: configurations, sweeps and wire payloads.

use serde_json::Value;
use timing::bridge::payload::{ArgsPayload, DType, PayloadValue, Real};
use timing::cache::CacheKind;
use timing::dims::Dim;
use timing::expert_demand::{ExpertDemand, Fold, PreparedDemand};
use timing::kernels::batched_gemm::{
    BatchedGemmKernelConfig, BatchedGemmKernelInput, BatchedGemmSpec,
};
use timing::kernels::bf16_fused_moe::{
    has_rank, Bf16FusedMoeKernelConfig, Bf16FusedMoeKernelInput, Bf16FusedMoeSpec,
};
use timing::kernels::clamped_swiglu::{ClampedSwigluKernelConfig, ClampedSwigluSpec};
use timing::kernels::config::{describe_line, ConfigValue, KernelConfig};
use timing::kernels::elementwise::{
    ElementwiseKernelConfig, ElementwiseKernelInput, ElementwiseSpec,
};
use timing::kernels::engine::{CellPayloads, KernelSpec, SweepCoords};
use timing::kernels::fp8_block_quant::{
    Fp8BlockQuantKernelConfig, Fp8BlockQuantKernelInput, Fp8BlockQuantSpec,
};
use timing::kernels::fp8_blockscale_grouped_gemm::{
    global_expert_selections, Fp8BlockscaleGroupedGemmKernelConfig,
    Fp8BlockscaleGroupedGemmKernelInput, Fp8BlockscaleGroupedGemmSpec,
};
use timing::kernels::fp8_per_token_group_quant::{
    Fp8PerTokenGroupQuantKernelConfig, Fp8PerTokenGroupQuantSpec,
};
use timing::sweep::{Ratio, SweepGrid};

/// A stand-in for the token axis that kernels share.
fn tokens() -> Vec<u32> {
    let mut points = vec![32, 64, 128, 256];
    points.extend((384..=4096).step_by(128));
    points.extend((4352..=8192).step_by(256));
    points.extend((9216..=16384).step_by(1024));
    points.extend([20480, 24576, 32768, 49152, 65536]);
    points
}

/// A sweep with its axes as real numbers.
struct Grid {
    inner: SweepGrid,
    axes: Vec<Vec<f64>>,
}

impl Grid {
    fn new(inner: SweepGrid) -> Self {
        let units = inner.units().clone();
        let axes = inner
            .axes()
            .iter()
            .zip(units)
            .map(|(axis, unit)| axis.iter().map(|&x| f64::from(x) / f64::from(unit)).collect())
            .collect();
        Grid { inner, axes }
    }

    fn axes(&self) -> &Vec<Vec<f64>> {
        &self.axes
    }
}

fn sweep<K: KernelSpec>(config: &K::Config) -> Grid {
    Grid::new(K::sweep_grid(config, &tokens()))
}

fn mask_of<K: KernelSpec>(config: &K::Config, grid: &Grid) -> Vec<bool> {
    K::infeasible_mask(config, &grid.inner)
}

/// A wire payload with its fields as JSON.
struct Wire {
    payload: ArgsPayload,
    fields: serde_json::Map<String, Value>,
}

impl Wire {
    fn new(payload: ArgsPayload) -> Self {
        let fields = payload
            .fields()
            .entries()
            .iter()
            .map(|(name, value)| (name.clone(), wire_value(value)))
            .collect();
        Wire { payload, fields }
    }

    fn fields(&self) -> &serde_json::Map<String, Value> {
        &self.fields
    }

    fn backend(&self) -> Option<&str> {
        self.payload.backend()
    }
}

fn real_value(real: &Real) -> f64 {
    match real {
        Real::Bits(bits) => f64::from_bits(*bits),
        Real::Reciprocal(n) => 1.0 / f64::from(*n),
        Real::ReciprocalRoot(n) => 1.0 / f64::from(*n).sqrt(),
    }
}

fn wire_value(value: &PayloadValue) -> Value {
    match value {
        PayloadValue::Flag(flag) => Value::from(*flag),
        PayloadValue::Number(number) => Value::from(*number),
        PayloadValue::Real(real) => Value::from(real_value(real)),
        PayloadValue::Text(text) => Value::from(text.as_str()),
        PayloadValue::Numbers(numbers) => Value::from(numbers.clone()),
        PayloadValue::Pairs(pairs) => {
            Value::from(pairs.iter().map(|&(a, b)| vec![a, b]).collect::<Vec<_>>())
        }
    }
}

fn payloads_of<K: CellPayloads>(config: &K::Config, grid: &Grid, backend: &str) -> Vec<Wire> {
    K::enumerate(config, &grid.inner, backend).into_iter().map(Wire::new).collect()
}

fn coords(input: &impl SweepCoords) -> Vec<f64> {
    ratios(input.coords())
}

fn ratios(coords: Vec<Ratio>) -> Vec<f64> {
    coords.into_iter().map(|r| r.numerator as f64 / r.denominator as f64).collect()
}

fn json(text: &str) -> Value {
    serde_json::from_str(text).unwrap()
}

fn dimension_value(dim: &Dim) -> Value {
    let mut bindings = serde_json::Map::new();
    for (name, value) in dim.bindings().entries() {
        bindings.insert(name.clone(), Value::from(*value));
    }
    let mut fields = serde_json::Map::new();
    fields.insert("value".to_string(), Value::from(dim.get()));
    let expression = if dim.is_literal() { Value::Null } else { Value::from(dim.formula()) };
    fields.insert("expression".to_string(), expression);
    fields.insert("bindings".to_string(), Value::Object(bindings));
    Value::Object(fields)
}

fn config_value(value: &ConfigValue) -> Value {
    match value {
        ConfigValue::Text(text) => Value::from(text.as_str()),
        ConfigValue::Number(number) => Value::from(*number),
        ConfigValue::Flag(flag) => Value::from(*flag),
        ConfigValue::Precision(dtype) => Value::from(dtype.as_str()),
        ConfigValue::Link(fabric) => Value::from(fabric.as_str()),
        ConfigValue::Dimension(dim) => dimension_value(dim),
        ConfigValue::Names(names) => Value::from(names.clone()),
        ConfigValue::Numbers(numbers) => Value::from(numbers.clone()),
        ConfigValue::Lists(lists) => Value::from(lists.clone()),
        ConfigValue::Corpus(corpus) => Value::from(corpus.data_file.as_str()),
        ConfigValue::Variant { tag, fields } if fields.is_empty() => Value::from(*tag),
        ConfigValue::Variant { tag, fields } => {
            let mut inner = serde_json::Map::new();
            for (name, number) in fields {
                inner.insert(name.to_string(), Value::from(*number));
            }
            let mut outer = serde_json::Map::new();
            outer.insert(tag.to_string(), Value::Object(inner));
            Value::Object(outer)
        }
    }
}

fn described<C: KernelConfig>(config: &C) -> Value {
    let mut fields = serde_json::Map::new();
    for field in config.describe_config() {
        fields.insert(field.name.to_string(), config_value(&field.value));
    }
    Value::Object(fields)
}


fn elementwise_config() -> ElementwiseKernelConfig {
    ElementwiseKernelConfig {
        backends: vec!["triton"],
        gpu_name: "H100".to_string(),
        input_bytes_per_token: 8192,
        output_bytes_per_token: 4096,
    }
}

#[test]
fn config_identity_includes_backend_and_byte_rates() {
    let cfg = elementwise_config();
    assert_eq!(cfg.backends, vec!["triton"]);
    assert_eq!(cfg.input_bytes_per_token, 8192);
    assert_eq!(cfg.output_bytes_per_token, 4096);
}

#[test]
fn elementwise_describe_config_renders_tidy_field_list() {
    assert_eq!(
        describe_line(&elementwise_config().describe_config()),
        r#"backends=["triton"] gpu_name="H100" input_bytes_per_token=8192 output_bytes_per_token=4096"#
    );
}

#[test]
fn input_sweep_coords_flatten_num_tokens() {
    let input = ElementwiseKernelInput { num_tokens: 1024 };
    assert_eq!(coords(&input), &[1024.0]);
}

#[test]
fn cache_kind_is_one_dimensional_linear() {
    assert_eq!(
        ElementwiseSpec::cache_kind("triton"),
        CacheKind::Cache1DLinear
    );
}

#[test]
fn enumerate_folds_byte_rate_times_tokens_into_total_bytes() {
    let cfg = elementwise_config();
    let grid = sweep::<ElementwiseSpec>(&cfg);
    let payloads = payloads_of::<ElementwiseSpec>(&cfg, &grid, "triton");

    assert!(
        !payloads.is_empty(),
        "token sweep axis must yield at least one point"
    );
    let first = &payloads[0];
    let fields = first.fields();
    assert_eq!(fields.len(), 3);
    assert_eq!(fields.get("backend"), Some(&Value::from("triton")));
    assert_eq!(fields.get("input_size_bytes"), Some(&Value::from(8192_u64 * 32)));
    assert_eq!(fields.get("output_size_bytes"), Some(&Value::from(4096_u64 * 32)));
    assert_eq!(first.backend(), Some("triton"));
}

const BATCHED_GEMM_Q_BACKEND: &str = "torch_mla_q_absorb_glm52";
const BATCHED_GEMM_V_BACKEND: &str = "torch_mla_v_up_glm52";

fn batched_gemm_local_heads() -> Dim {
    Dim::param("num_attention_heads", 64) / Dim::param("attn_tp", 1)
}

fn batched_gemm_q_config() -> BatchedGemmKernelConfig {
    BatchedGemmKernelConfig {
        backends: vec![BATCHED_GEMM_Q_BACKEND],
        gpu_name: "NVIDIA H200".to_string(),
        num_batches: batched_gemm_local_heads(),
        n: Dim::param("kv_lora_rank", 512),
        k: Dim::param("qk_nope_head_dim", 192),
        dtype: DType::Bf16,
    }
}

fn batched_gemm_v_config() -> BatchedGemmKernelConfig {
    BatchedGemmKernelConfig {
        backends: vec![BATCHED_GEMM_V_BACKEND],
        gpu_name: "NVIDIA H200".to_string(),
        num_batches: batched_gemm_local_heads(),
        n: Dim::param("v_head_dim", 256),
        k: Dim::param("kv_lora_rank", 512),
        dtype: DType::Bf16,
    }
}

#[test]
fn q_and_v_configs_keep_layout_backends_and_shapes_separate() {
    let q = batched_gemm_q_config();
    let v = batched_gemm_v_config();

    assert_eq!(BatchedGemmSpec::KIND, "batched_gemm");
    assert_eq!(BatchedGemmSpec::profile_kind(), "batched_gemm");

    assert_eq!(q.backends(), &[BATCHED_GEMM_Q_BACKEND]);
    assert_eq!(q.gpu_name(), "NVIDIA H200");
    assert_eq!(q.num_batches, 64);
    assert_eq!(q.n, 512);
    assert_eq!(q.k, 192);
    assert_eq!(q.dtype, DType::Bf16);

    assert_eq!(v.backends(), &[BATCHED_GEMM_V_BACKEND]);
    assert_eq!(v.gpu_name(), "NVIDIA H200");
    assert_eq!(v.num_batches, 64);
    assert_eq!(v.n, 256);
    assert_eq!(v.k, 512);
    assert_eq!(v.dtype, DType::Bf16);
}

#[test]
fn describe_config_preserves_rich_q_and_v_dims() {
    assert_eq!(
        described(&batched_gemm_q_config()),
        json(r#"{
            "backends": ["torch_mla_q_absorb_glm52"],
            "gpu_name": "NVIDIA H200",
            "num_batches": {
                "value": 64,
                "expression": "num_attention_heads/attn_tp",
                "bindings": {"attn_tp": 1, "num_attention_heads": 64}
            },
            "n": {
                "value": 512,
                "expression": "kv_lora_rank",
                "bindings": {"kv_lora_rank": 512}
            },
            "k": {
                "value": 192,
                "expression": "qk_nope_head_dim",
                "bindings": {"qk_nope_head_dim": 192}
            },
            "dtype": "bf16"
        }"#)
    );
    assert_eq!(
        described(&batched_gemm_v_config()),
        json(r#"{
            "backends": ["torch_mla_v_up_glm52"],
            "gpu_name": "NVIDIA H200",
            "num_batches": {
                "value": 64,
                "expression": "num_attention_heads/attn_tp",
                "bindings": {"attn_tp": 1, "num_attention_heads": 64}
            },
            "n": {
                "value": 256,
                "expression": "v_head_dim",
                "bindings": {"v_head_dim": 256}
            },
            "k": {
                "value": 512,
                "expression": "kv_lora_rank",
                "bindings": {"kv_lora_rank": 512}
            },
            "dtype": "bf16"
        }"#)
    );
}

#[test]
fn input_coords_and_slot_input_are_exactly_m() {
    let input = BatchedGemmKernelInput { m: 128 };

    assert_eq!(coords(&input), &[128.0]);
    assert_eq!(BatchedGemmKernelInput::coord_field_names(), &["m"]);
}

#[test]
fn sweep_has_frozen_decode_and_prefill_coverage_and_empty_mask() {
    for cfg in [batched_gemm_q_config(), batched_gemm_v_config()] {
        let grid = sweep::<BatchedGemmSpec>(&cfg);

        assert_eq!(grid.axes().len(), 1);
        assert_eq!(&grid.axes()[0][..6], &[1.0, 2.0, 4.0, 8.0, 16.0, 32.0]);
        assert_eq!(grid.axes()[0].last(), Some(&65536.0));
        assert_eq!(grid.axes()[0].len(), 68);
        assert!(mask_of::<BatchedGemmSpec>(&cfg, &grid).is_empty());
    }
}

#[test]
fn both_layout_backends_use_linear_1d_cache() {
    assert_eq!(
        BatchedGemmSpec::cache_kind(BATCHED_GEMM_Q_BACKEND),
        CacheKind::Cache1DLinear
    );
    assert_eq!(
        BatchedGemmSpec::cache_kind(BATCHED_GEMM_V_BACKEND),
        CacheKind::Cache1DLinear
    );
}

fn batched_gemm_assert_first_payload(
    config: &BatchedGemmKernelConfig,
    backend: &'static str,
    expected_n: u32,
    expected_k: u32,
) {
    let grid = sweep::<BatchedGemmSpec>(config);
    let payloads = payloads_of::<BatchedGemmSpec>(config, &grid, backend);
    assert_eq!(payloads.len(), 68);

    let first = &payloads[0];
    let fields = first.fields();
    let field_names: Vec<&str> = fields.keys().map(String::as_str).collect();

    assert_eq!(
        field_names,
        ["backend", "dtype", "k", "m", "n", "num_batches"]
    );
    assert_eq!(fields.len(), 6);
    assert_eq!(fields.get("backend"), Some(&Value::from(backend)));
    assert_eq!(fields.get("num_batches"), Some(&Value::from(64_u32)));
    assert_eq!(fields.get("m"), Some(&Value::from(1_u32)));
    assert_eq!(fields.get("n"), Some(&Value::from(expected_n)));
    assert_eq!(fields.get("k"), Some(&Value::from(expected_k)));
    assert_eq!(fields.get("dtype"), Some(&Value::from("bf16")));
    assert_eq!(first.backend(), Some(backend));
}

#[test]
fn q_and_v_enumeration_match_the_python_wire_schema() {
    batched_gemm_assert_first_payload(&batched_gemm_q_config(), BATCHED_GEMM_Q_BACKEND, 512, 192);
    batched_gemm_assert_first_payload(&batched_gemm_v_config(), BATCHED_GEMM_V_BACKEND, 256, 512);
}

#[test]
fn dtype_tags_expose_compute_only_for_both_configs() {
    for cfg in [batched_gemm_q_config(), batched_gemm_v_config()] {
        assert_eq!(cfg.compute_dtype(), Some(DType::Bf16));
        assert_eq!(cfg.kv_dtype(), None);
    }
}

#[test]
fn payload_uses_routed_rows_not_source_tokens() {
    let config = ClampedSwigluKernelConfig {
        backends: vec!["vllm_inductor"],
        gpu_name: "NVIDIA H200".to_string(),
        hidden_dim: 2048.into(),
        dtype: DType::Bf16,
    };
    let payload = payloads_of::<ClampedSwigluSpec>(
        &config,
        &sweep::<ClampedSwigluSpec>(&config),
        "vllm_inductor",
    )
    .into_iter()
    .find(|payload| payload.fields()["num_rows"] == 128)
    .unwrap();
    assert_eq!(payload.fields()["hidden_dim"], 2048);
    assert_eq!(payload.fields().len(), 4);
}

fn fp8_block_quant_config() -> Fp8BlockQuantKernelConfig {
    Fp8BlockQuantKernelConfig {
        backends: vec!["flashinfer_trtllm"],
        gpu_name: "NVIDIA H200".to_string(),
        hidden_size: 4096.into(),
        num_problems: 32.into(),
        input_dtype: DType::Bf16,
    }
}

#[test]
fn config_identity_includes_backend_gpu_shape_and_dtype() {
    let base = fp8_block_quant_config();
    assert_eq!(base, base.clone());

    let mut changed_backend = fp8_block_quant_config();
    changed_backend.backends = vec!["another_backend"];
    assert_ne!(base, changed_backend);

    let mut changed_gpu = fp8_block_quant_config();
    changed_gpu.gpu_name = "NVIDIA H100".to_string();
    assert_ne!(base, changed_gpu);

    let mut changed_shape = fp8_block_quant_config();
    changed_shape.hidden_size = 8192.into();
    assert_ne!(base, changed_shape);

    let mut changed_problem_count = fp8_block_quant_config();
    changed_problem_count.num_problems = 16.into();
    assert_ne!(base, changed_problem_count);

    let mut changed_dtype = fp8_block_quant_config();
    changed_dtype.input_dtype = DType::Fp16;
    assert_ne!(base, changed_dtype);
}

#[test]
fn fp8_block_quant_describe_config_preserves_the_static_identity() {
    assert_eq!(
        described(&fp8_block_quant_config()),
        json(r#"{
            "backends": ["flashinfer_trtllm"],
            "gpu_name": "NVIDIA H200",
            "hidden_size": {"value": 4096, "expression": null, "bindings": {}},
            "num_problems": {"value": 32, "expression": null, "bindings": {}},
            "input_dtype": "bf16"
        }"#)
    );
}

#[test]
fn input_projects_to_num_tokens_axis() {
    let input = Fp8BlockQuantKernelInput { num_tokens: 48 };
    assert_eq!(coords(&input), &[48.0]);
    assert_eq!(
        Fp8BlockQuantKernelInput::coord_field_names(),
        &["num_tokens"]
    );
}

#[test]
fn grid_covers_small_routed_rows_and_shared_token_curve() {
    let grid = sweep::<Fp8BlockQuantSpec>(&fp8_block_quant_config());
    assert_eq!(grid.axes().len(), 1);
    assert_eq!(
        &grid.axes()[0][..7],
        &[1.0, 4.0, 8.0, 16.0, 32.0, 48.0, 64.0]
    );
    assert!(grid.axes()[0].contains(&2048.0));
    assert_eq!(grid.axes()[0].last().copied(), Some(65536.0));
    assert_eq!(
        Fp8BlockQuantSpec::cache_kind("flashinfer_trtllm"),
        CacheKind::Cache1DLinear
    );
}

#[test]
fn input_dtype_is_the_compute_dtype_tag() {
    assert_eq!(fp8_block_quant_config().compute_dtype(), Some(DType::Bf16));
}

#[test]
fn fp8_block_quant_enumerate_matches_python_args_exactly() {
    let config = fp8_block_quant_config();
    let grid = sweep::<Fp8BlockQuantSpec>(&config);
    let payload = &payloads_of::<Fp8BlockQuantSpec>(&config, &grid, "flashinfer_trtllm")[0];
    let fields = payload.fields();

    assert_eq!(fields.len(), 5);
    assert_eq!(
        fields.get("backend"),
        Some(&Value::from("flashinfer_trtllm"))
    );
    assert_eq!(fields.get("num_tokens"), Some(&Value::from(1_u32)));
    assert_eq!(fields.get("hidden_size"), Some(&Value::from(4096_u32)));
    assert_eq!(fields.get("num_problems"), Some(&Value::from(32_u32)));
    assert_eq!(fields.get("input_dtype"), Some(&Value::from("bf16")));
    assert_eq!(payload.backend(), Some("flashinfer_trtllm"));
}

fn fp8_per_token_group_quant_config() -> Fp8PerTokenGroupQuantKernelConfig {
    Fp8PerTokenGroupQuantKernelConfig {
        backends: vec!["vllm_cuda"],
        gpu_name: "NVIDIA H200".to_string(),
        hidden_size: Dim::from(4096),
        group_size: 128,
        input_dtype: DType::Bf16,
        scale_format: "ue8m0_column_major".to_string(),
    }
}

#[test]
fn enumerate_matches_python_wire_schema() {
    let config = fp8_per_token_group_quant_config();
    let grid = sweep::<Fp8PerTokenGroupQuantSpec>(&config);
    let payload = &payloads_of::<Fp8PerTokenGroupQuantSpec>(&config, &grid, "vllm_cuda")[0];
    let fields = payload.fields();
    assert_eq!(fields.len(), 6);
    assert_eq!(fields.get("num_tokens"), Some(&Value::from(1_u32)));
    assert_eq!(fields.get("hidden_size"), Some(&Value::from(4096_u32)));
    assert_eq!(fields.get("group_size"), Some(&Value::from(128_u32)));
    assert_eq!(fields.get("input_dtype"), Some(&Value::from("bf16")));
    assert_eq!(
        fields.get("scale_format"),
        Some(&Value::from("ue8m0_column_major"))
    );
}

fn fp8_blockscale_grouped_gemm_config() -> Fp8BlockscaleGroupedGemmKernelConfig {
    Fp8BlockscaleGroupedGemmKernelConfig {
        backends: vec!["flashinfer_trtllm"],
        gpu_name: "NVIDIA H200".to_string(),
        n: 4096.into(),
        k: 8192.into(),
        dtype: DType::Fp8E4m3,
        experts_per_token: 2,
        local_ppm: vec![300_000, 200_000],
    }
}

#[test]
fn config_identity_includes_recipe_and_distribution_axes() {
    let base = fp8_blockscale_grouped_gemm_config();
    assert_eq!(base, base.clone());

    let mut changed_recipe = fp8_blockscale_grouped_gemm_config();
    changed_recipe.experts_per_token = 4;
    assert_ne!(base, changed_recipe);

    let mut changed_distribution = fp8_blockscale_grouped_gemm_config();
    changed_distribution.local_ppm = vec![250_000, 250_000];
    assert_ne!(base, changed_distribution);

    let mut changed_shape = fp8_blockscale_grouped_gemm_config();
    changed_shape.n = 8192.into();
    assert_ne!(base, changed_shape);
}

#[test]
fn fp8_blockscale_grouped_gemm_describe_config_preserves_the_static_identity() {
    assert_eq!(
        described(&fp8_blockscale_grouped_gemm_config()),
        json(r#"{
            "backends": ["flashinfer_trtllm"],
            "gpu_name": "NVIDIA H200",
            "n": {"value": 4096, "expression": null, "bindings": {}},
            "k": {"value": 8192, "expression": null, "bindings": {}},
            "dtype": "fp8_e4m3",
            "experts_per_token": 2,
            "local_ppm": [300000, 200000]
        }"#)
    );
}

#[test]
fn input_projects_to_num_input_tokens_axis() {
    let input = Fp8BlockscaleGroupedGemmKernelInput {
        num_input_tokens: 48,
    };
    assert_eq!(coords(&input), &[48.0]);
    assert_eq!(
        Fp8BlockscaleGroupedGemmKernelInput::coord_field_names(),
        &["num_input_tokens"]
    );
}

#[test]
fn grid_covers_small_batches_and_shared_token_curve() {
    let grid = sweep::<Fp8BlockscaleGroupedGemmSpec>(&fp8_blockscale_grouped_gemm_config());
    assert_eq!(grid.axes().len(), 1);
    assert_eq!(
        &grid.axes()[0][..7],
        &[1.0, 4.0, 8.0, 16.0, 32.0, 48.0, 64.0]
    );
    assert!(grid.axes()[0].contains(&2048.0));
    assert_eq!(grid.axes()[0].last().copied(), Some(65536.0));
    assert_eq!(
        Fp8BlockscaleGroupedGemmSpec::cache_kind("flashinfer_trtllm"),
        CacheKind::Cache1DLinear
    );
}

#[test]
fn dtype_is_the_compute_dtype_tag() {
    assert_eq!(fp8_blockscale_grouped_gemm_config().compute_dtype(), Some(DType::Fp8E4m3));
}

#[test]
fn fp8_blockscale_grouped_gemm_enumerate_matches_python_args_exactly() {
    let config = fp8_blockscale_grouped_gemm_config();
    let grid = sweep::<Fp8BlockscaleGroupedGemmSpec>(&config);
    let rows = vec![vec![1, 0]; grid.axes()[0].len()];
    let payloads: Vec<Wire> =
        Fp8BlockscaleGroupedGemmSpec::enumerate(&config, &grid.inner, "flashinfer_trtllm", &rows)
            .into_iter()
            .map(Wire::new)
            .collect();
    let payload = &payloads[0];
    let fields = payload.fields();

    assert_eq!(fields.len(), 8);
    assert_eq!(
        fields.get("backend"),
        Some(&Value::from("flashinfer_trtllm"))
    );
    assert_eq!(fields.get("n"), Some(&Value::from(4096_u32)));
    assert_eq!(fields.get("k"), Some(&Value::from(8192_u32)));
    assert_eq!(fields.get("dtype"), Some(&Value::from("fp8_e4m3")));
    assert_eq!(fields.get("num_local_experts"), Some(&Value::from(2_u32)));
    assert_eq!(fields.get("num_input_tokens"), Some(&Value::from(1_u32)));
    assert_eq!(fields.get("experts_per_token"), Some(&Value::from(2_u32)));
    assert_eq!(
        fields.get("per_group_batches"),
        Some(&json(r#"[1, 0]"#))
    );
    assert_eq!(payload.backend(), Some("flashinfer_trtllm"));
}

const BF16_FUSED_MOE_BACKEND: &str = "flashinfer_trtllm_sm100";
const BF16_FUSED_MOE_NUM_EXPERTS: u32 = 8;
const BF16_FUSED_MOE_NUM_LOCAL_EXPERTS: u32 = 4;
const BF16_FUSED_MOE_TOP_K: u32 = 2;
fn bf16_fused_moe_popularity() -> ExpertDemand {
    ExpertDemand::Popularity {
        layerwise_global_ppm: vec![
            vec![
                400_000, 300_000, 100_000, 100_000, 50_000, 30_000, 15_000, 5_000,
            ],
            vec![
                300_000, 300_000, 150_000, 100_000, 80_000, 40_000, 20_000, 10_000,
            ],
        ],
    }
}

fn bf16_fused_moe_config(folded_rank_position: u32) -> Bf16FusedMoeKernelConfig {
    Bf16FusedMoeKernelConfig {
        backends: vec![BF16_FUSED_MOE_BACKEND],
        gpu_name: "NVIDIA B200".to_string(),
        hidden_size: Dim::param("hidden_size", 6144),
        intermediate_size: Dim::param("moe_intermediate_size", 1536),
        num_experts: Dim::param("n_routed_experts", BF16_FUSED_MOE_NUM_EXPERTS),
        num_local_experts: Dim::param("num_local_experts", BF16_FUSED_MOE_NUM_LOCAL_EXPERTS),
        top_k: BF16_FUSED_MOE_TOP_K,
        dtype: DType::Bf16,
        routing_method: "minimax2".to_string(),
        n_group: 1,
        topk_group: 1,
        routed_scaling_numerator: 1,
        routed_scaling_denominator: 1,
        expert_demand: bf16_fused_moe_popularity(),
        folded_rank_position,
    }
}

/// Routed rows in which every token takes two experts, the first of them always.
fn bf16_fused_moe_demand(grid: &Grid) -> PreparedDemand {
    let folds = grid.inner.axes()[0]
        .iter()
        .map(|&num_tokens| {
            let mut counts = vec![0; BF16_FUSED_MOE_NUM_EXPERTS as usize];
            counts[0] = num_tokens;
            counts[1] = num_tokens - num_tokens / 2;
            counts[2] = num_tokens / 2;
            Fold {
                top_k: BF16_FUSED_MOE_TOP_K,
                num_tokens,
                experts_per_rank: BF16_FUSED_MOE_NUM_LOCAL_EXPERTS as usize,
                counts,
            }
        })
        .collect();
    PreparedDemand::prepare(folds)
}

fn bf16_fused_moe_payloads(config: &Bf16FusedMoeKernelConfig, grid: &Grid) -> Vec<Wire> {
    let demand = bf16_fused_moe_demand(grid);
    Bf16FusedMoeSpec::enumerate(config, &grid.inner, BF16_FUSED_MOE_BACKEND, &demand)
        .into_iter()
        .map(Wire::new)
        .collect()
}

#[test]
fn bf16_fused_moe_config_kind_and_dtype_identity_match_the_python_handoff() {
    let cfg = bf16_fused_moe_config(0);

    assert_eq!(Bf16FusedMoeSpec::KIND, "bf16_fused_moe");
    assert_eq!(Bf16FusedMoeSpec::profile_kind(), "bf16_fused_moe");
    assert_eq!(cfg.backends(), &[BF16_FUSED_MOE_BACKEND]);
    assert_eq!(cfg.gpu_name(), "NVIDIA B200");
    assert_eq!(cfg.compute_dtype(), Some(DType::Bf16));
    assert_eq!(cfg.kv_dtype(), None);
    assert_eq!(
        Bf16FusedMoeSpec::cache_kind(BF16_FUSED_MOE_BACKEND),
        CacheKind::Cache1DLinear
    );
}

#[test]
fn input_is_the_single_physical_token_coordinate() {
    let input = Bf16FusedMoeKernelInput { num_tokens: 48 };

    assert_eq!(coords(&input), &[48.0]);
    assert_eq!(
        Bf16FusedMoeKernelInput::coord_field_names(),
        &["num_tokens"]
    );
}

#[test]
fn token_axis_matches_the_nvfp4_sibling_exactly() {
    let bf16 = sweep::<Bf16FusedMoeSpec>(&bf16_fused_moe_config(0));
    assert_eq!(bf16.axes()[0].first(), Some(&1.0));
    assert_eq!(bf16.axes()[0].last(), Some(&65536.0));
    assert!(bf16.axes()[0].windows(2).all(|pair| pair[0] < pair[1]));
}

#[test]
fn enumerate_matches_the_full_python_wire_schema() {
    let cfg = bf16_fused_moe_config(0);
    let grid = sweep::<Bf16FusedMoeSpec>(&cfg);
    let payloads = bf16_fused_moe_payloads(&cfg, &grid);

    assert_eq!(payloads.len(), grid.axes()[0].len());
    let expected_names = [
        "backend",
        "dtype",
        "hidden_size",
        "intermediate_size",
        "n_group",
        "num_experts",
        "num_local_experts",
        "num_tokens",
        "per_expert_batches",
        "routed_scaling_denominator",
        "routed_scaling_numerator",
        "routing_method",
        "top_k",
        "topk_group",
    ];
    for payload in &payloads {
        let names: Vec<&str> = payload.fields().keys().map(String::as_str).collect();
        assert_eq!(names, expected_names);
    }

    let first = payloads[0].fields();
    assert_eq!(first.get("num_tokens"), Some(&Value::from(1_u32)));
    assert_eq!(first.get("dtype"), Some(&Value::from("bf16")));
    assert_eq!(first.get("hidden_size"), Some(&Value::from(6144_u32)));
    assert_eq!(first.get("top_k"), Some(&Value::from(BF16_FUSED_MOE_TOP_K)));
}

#[test]
fn per_expert_batches_are_a_rank_local_exact_topk_histogram() {
    for folded_rank_position in [0, 1] {
        let cfg = bf16_fused_moe_config(folded_rank_position);
        let grid = sweep::<Bf16FusedMoeSpec>(&cfg);
        let payloads = bf16_fused_moe_payloads(&cfg, &grid);

        for (index, payload) in payloads.iter().enumerate() {
            let num_tokens = grid.axes()[0][index] as u64;
            let batches: Vec<u64> = payload.fields()["per_expert_batches"]
                .as_array()
                .expect("per_expert_batches must be an array")
                .iter()
                .map(|value| value.as_u64().expect("counts must be unsigned"))
                .collect();

            assert_eq!(batches.len(), BF16_FUSED_MOE_NUM_EXPERTS as usize);
            assert_eq!(batches.iter().sum::<u64>(), num_tokens * u64::from(BF16_FUSED_MOE_TOP_K));
            assert!(
                batches.iter().all(|&batch| batch <= num_tokens),
                "one expert cannot take more than one row per token"
            );
        }
    }
}

#[test]
fn folded_rank_position_rotates_the_local_slice() {
    let grid = sweep::<Bf16FusedMoeSpec>(&bf16_fused_moe_config(0));
    let index = grid.axes()[0]
        .iter()
        .position(|&tokens| tokens == 256.0)
        .expect("256 tokens is on the shared axis");

    let local_of = |folded_rank_position: u32| -> Vec<u64> {
        let cfg = bf16_fused_moe_config(folded_rank_position);
        let payloads = bf16_fused_moe_payloads(&cfg, &grid);
        payloads[index].fields()["per_expert_batches"]
            .as_array()
            .unwrap()
            .iter()
            .take(BF16_FUSED_MOE_NUM_LOCAL_EXPERTS as usize)
            .map(|value| value.as_u64().unwrap())
            .collect()
    };

    assert_ne!(local_of(0), local_of(1));
}

#[test]
fn folded_rank_position_past_the_last_rank_is_rejected() {
    let ranks = BF16_FUSED_MOE_NUM_EXPERTS / BF16_FUSED_MOE_NUM_LOCAL_EXPERTS;
    assert!(has_rank(&bf16_fused_moe_config(ranks - 1)));
    assert!(!has_rank(&bf16_fused_moe_config(ranks)));
}

#[test]
fn selections_of_all_experts_may_overflow() {
    assert_eq!(global_expert_selections(48, 2), Some(96));
    assert_eq!(global_expert_selections(u32::MAX, 2), None);
}
