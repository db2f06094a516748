//! Collectives: configurations, sweeps and wire payloads.

use serde_json::Value;
use timing::bridge::payload::{ArgsPayload, DType, PayloadValue, Real};
use timing::cache::CacheKind;
use timing::dims::Dim;
use timing::kernels::all_reduce::{AllReduceKernelConfig, AllReduceKernelInput, AllReduceSpec};
use timing::kernels::all_reduce_fusion::{
    AllReduceFusionKernelConfig, AllReduceFusionKernelInput, AllReduceFusionSpec,
};
use timing::kernels::all_reduce_residual_rms_norm::{
    AllReduceResidualRmsNormKernelConfig, AllReduceResidualRmsNormKernelInput,
    AllReduceResidualRmsNormSpec,
};
use timing::kernels::config::{describe_line, ConfigValue, Fabric, KernelConfig};
use timing::kernels::engine::{CellPayloads, KernelSpec, SweepCoords};
use timing::sweep::{Ratio, SweepGrid};

/// A stand-in for the token axis that kernels share.
fn tokens() -> Vec<u32> {
    let mut points = vec![32, 64, 128, 256];
    points.extend((384..=4096).step_by(128));
    points.extend((4352..=8192).step_by(256));
    points.extend((9216..=16384).step_by(1024));
    points.extend([20480, 24576, 32768, 49152, 65536]);
    points
}

/// A sweep with its axes as real numbers.
struct Grid {
    inner: SweepGrid,
    axes: Vec<Vec<f64>>,
}

impl Grid {
    fn new(inner: SweepGrid) -> Self {
        let units = inner.units().clone();
        let axes = inner
            .axes()
            .iter()
            .zip(units)
            .map(|(axis, unit)| axis.iter().map(|&x| f64::from(x) / f64::from(unit)).collect())
            .collect();
        Grid { inner, axes }
    }

    fn axes(&self) -> &Vec<Vec<f64>> {
        &self.axes
    }
}

fn sweep<K: KernelSpec>(config: &K::Config) -> Grid {
    Grid::new(K::sweep_grid(config, &tokens()))
}

fn mask_of<K: KernelSpec>(config: &K::Config, grid: &Grid) -> Vec<bool> {
    K::infeasible_mask(config, &grid.inner)
}

/// A wire payload with its fields as JSON.
struct Wire {
    payload: ArgsPayload,
    fields: serde_json::Map<String, Value>,
}

impl Wire {
    fn new(payload: ArgsPayload) -> Self {
        let fields = payload
            .fields()
            .entries()
            .iter()
            .map(|(name, value)| (name.clone(), wire_value(value)))
            .collect();
        Wire { payload, fields }
    }

    fn fields(&self) -> &serde_json::Map<String, Value> {
        &self.fields
    }

    fn backend(&self) -> Option<&str> {
        self.payload.backend()
    }
}

fn real_value(real: &Real) -> f64 {
    match real {
        Real::Bits(bits) => f64::from_bits(*bits),
        Real::Reciprocal(n) => 1.0 / f64::from(*n),
        Real::ReciprocalRoot(n) => 1.0 / f64::from(*n).sqrt(),
    }
}

fn wire_value(value: &PayloadValue) -> Value {
    match value {
        PayloadValue::Flag(flag) => Value::from(*flag),
        PayloadValue::Number(number) => Value::from(*number),
        PayloadValue::Real(real) => Value::from(real_value(real)),
        PayloadValue::Text(text) => Value::from(text.as_str()),
        PayloadValue::Numbers(numbers) => Value::from(numbers.clone()),
        PayloadValue::Pairs(pairs) => {
            Value::from(pairs.iter().map(|&(a, b)| vec![a, b]).collect::<Vec<_>>())
        }
    }
}

fn payloads_of<K: CellPayloads>(config: &K::Config, grid: &Grid, backend: &str) -> Vec<Wire> {
    K::enumerate(config, &grid.inner, backend).into_iter().map(Wire::new).collect()
}

fn coords(input: &impl SweepCoords) -> Vec<f64> {
    ratios(input.coords())
}

fn ratios(coords: Vec<Ratio>) -> Vec<f64> {
    coords.into_iter().map(|r| r.numerator as f64 / r.denominator as f64).collect()
}

fn json(text: &str) -> Value {
    serde_json::from_str(text).unwrap()
}

fn dimension_value(dim: &Dim) -> Value {
    let mut bindings = serde_json::Map::new();
    for (name, value) in dim.bindings().entries() {
        bindings.insert(name.clone(), Value::from(*value));
    }
    let mut fields = serde_json::Map::new();
    fields.insert("value".to_string(), Value::from(dim.get()));
    let expression = if dim.is_literal() { Value::Null } else { Value::from(dim.formula()) };
    fields.insert("expression".to_string(), expression);
    fields.insert("bindings".to_string(), Value::Object(bindings));
    Value::Object(fields)
}

fn config_value(value: &ConfigValue) -> Value {
    match value {
        ConfigValue::Text(text) => Value::from(text.as_str()),
        ConfigValue::Number(number) => Value::from(*number),
        ConfigValue::Flag(flag) => Value::from(*flag),
        ConfigValue::Precision(dtype) => Value::from(dtype.as_str()),
        ConfigValue::Link(fabric) => Value::from(fabric.as_str()),
        ConfigValue::Dimension(dim) => dimension_value(dim),
        ConfigValue::Names(names) => Value::from(names.clone()),
        ConfigValue::Numbers(numbers) => Value::from(numbers.clone()),
        ConfigValue::Lists(lists) => Value::from(lists.clone()),
        ConfigValue::Corpus(corpus) => Value::from(corpus.data_file.as_str()),
        ConfigValue::Variant { tag, fields } if fields.is_empty() => Value::from(*tag),
        ConfigValue::Variant { tag, fields } => {
            let mut inner = serde_json::Map::new();
            for (name, number) in fields {
                inner.insert(name.to_string(), Value::from(*number));
            }
            let mut outer = serde_json::Map::new();
            outer.insert(tag.to_string(), Value::Object(inner));
            Value::Object(outer)
        }
    }
}

fn described<C: KernelConfig>(config: &C) -> Value {
    let mut fields = serde_json::Map::new();
    for field in config.describe_config() {
        fields.insert(field.name.to_string(), config_value(&field.value));
    }
    Value::Object(fields)
}


fn all_reduce_cfg() -> AllReduceKernelConfig {
    AllReduceKernelConfig {
        backends: vec!["nccl"],
        gpu_name: "H100".to_string(),
        num_gpus: 8,
        fabric: Fabric::Nvlink,
        dtype: DType::Bf16,
    }
}

#[test]
fn config_identity_includes_backend_and_shape() {
    let c = all_reduce_cfg();
    assert_eq!(c.backends, vec!["nccl"]);
    assert_eq!(c.num_gpus, 8);
    assert_eq!(c.fabric, Fabric::Nvlink);
    assert_eq!(c.dtype, DType::Bf16);
}

#[test]
fn all_reduce_describe_config_renders_tidy_field_list() {
    assert_eq!(
        describe_line(&all_reduce_cfg().describe_config()),
        r#"backends=["nccl"] gpu_name="H100" num_gpus=8 fabric=Nvlink dtype=Bf16"#
    );
}

#[test]
fn input_sweep_coords_flatten_message_size_field() {
    let input = AllReduceKernelInput {
        message_size_bytes: 1 << 20,
    };
    assert_eq!(coords(&input), &[(1u64 << 20) as f64]);
}

#[test]
fn sweep_grid_is_1d_message_size_ladder() {
    let grid = sweep::<AllReduceSpec>(&all_reduce_cfg());
    assert_eq!(grid.axes().len(), 1);
    assert_eq!(grid.axes()[0].len(), 19);
    assert_eq!(grid.axes()[0].first().copied(), Some(4096.0));
    assert_eq!(grid.axes()[0].last().copied(), Some((1u64 << 30) as f64));
    assert!(matches!(
        AllReduceSpec::cache_kind("nccl"),
        CacheKind::Cache1DLinear
    ));
}

#[test]
fn all_reduce_enumerate_emits_payload_with_all_wire_fields() {
    let c = all_reduce_cfg();
    let grid = sweep::<AllReduceSpec>(&c);
    let payloads = payloads_of::<AllReduceSpec>(&c, &grid, "nccl");

    assert!(
        !payloads.is_empty(),
        "message-size sweep axis must yield at least one point"
    );
    let first = &payloads[0];
    let fields = first.fields();
    assert_eq!(fields.len(), 5);
    assert_eq!(fields.get("backend"), Some(&Value::from("nccl")));
    assert_eq!(fields.get("num_gpus"), Some(&Value::from(8_u32)));
    assert_eq!(fields.get("dtype"), Some(&Value::from("bf16")));
    assert_eq!(fields.get("fabric"), Some(&Value::from("nvlink")));
    assert!(fields
        .get("message_size_bytes")
        .and_then(Value::as_u64)
        .is_some());
    assert_eq!(first.backend(), Some("nccl"));
}

fn all_reduce_fusion_config(num_gpus: u32) -> AllReduceFusionKernelConfig {
    AllReduceFusionKernelConfig {
        backends: vec!["flashinfer_trtllm"],
        gpu_name: "NVIDIA B200".to_string(),
        num_gpus,
        hidden_dim: 6144,
        dtype: DType::Bf16,
        fabric: Fabric::Nvlink,
    }
}

#[test]
fn config_and_input_identity_are_explicit() {
    let config = all_reduce_fusion_config(4);
    assert_eq!(config.compute_dtype(), Some(DType::Bf16));
    assert_eq!(config.backends(), &["flashinfer_trtllm"]);
    assert_eq!(described(&config)["hidden_dim"], 6144);
    let input = AllReduceFusionKernelInput { num_tokens: 8 };
    assert_eq!(coords(&input), &[8.0]);
    assert_eq!(
        AllReduceFusionKernelInput::coord_field_names(),
        &["num_tokens"]
    );
}

#[test]
fn sweep_keeps_completion_boundary_and_workspace_cap() {
    let tp4 = sweep::<AllReduceFusionSpec>(&all_reduce_fusion_config(4));
    assert!(tp4.axes()[0].contains(&16.0));
    assert!(tp4.axes()[0].contains(&17.0));
    assert_eq!(tp4.axes()[0].last(), Some(&2730.0));

    let tp8 = sweep::<AllReduceFusionSpec>(&all_reduce_fusion_config(8));
    assert_eq!(tp8.axes()[0].last(), Some(&85.0));
}

#[test]
fn enumerate_matches_python_schema() {
    let config = all_reduce_fusion_config(4);
    let grid = sweep::<AllReduceFusionSpec>(&config);
    let payloads = payloads_of::<AllReduceFusionSpec>(&config, &grid, "flashinfer_trtllm");
    let fields = payloads[0].fields();

    assert_eq!(fields.len(), 6);
    assert_eq!(
        fields.get("backend"),
        Some(&Value::from("flashinfer_trtllm"))
    );
    assert_eq!(fields.get("num_gpus"), Some(&Value::from(4_u32)));
    assert_eq!(fields.get("num_tokens"), Some(&Value::from(1_u32)));
    assert_eq!(fields.get("hidden_dim"), Some(&Value::from(6144_u32)));
    assert_eq!(fields.get("dtype"), Some(&Value::from("bf16")));
    assert_eq!(fields.get("fabric"), Some(&Value::from("nvlink")));
}

fn all_reduce_residual_rms_norm_config(num_gpus: u32) -> AllReduceResidualRmsNormKernelConfig {
    AllReduceResidualRmsNormKernelConfig {
        backends: vec!["flashinfer_trtllm"],
        gpu_name: "NVIDIA H200".to_string(),
        num_gpus,
        hidden_dim: 4096,
        dtype: DType::Bf16,
        fabric: Fabric::Nvlink,
        strategy: "auto".to_string(),
        launch_with_pdl: true,
        fp32_acc: true,
    }
}

#[test]
fn config_identity_and_dtype_are_explicit() {
    let config = all_reduce_residual_rms_norm_config(2);
    assert_eq!(config.compute_dtype(), Some(DType::Bf16));
    assert_eq!(config.backends(), &["flashinfer_trtllm"]);
    assert_eq!(described(&config)["hidden_dim"], 4096);
    assert_eq!(described(&config)["strategy"], "auto");
}

#[test]
fn input_axis_is_num_tokens() {
    let input = AllReduceResidualRmsNormKernelInput { num_tokens: 32 };
    assert_eq!(coords(&input), &[32.0]);
    assert_eq!(
        AllReduceResidualRmsNormKernelInput::coord_field_names(),
        &["num_tokens"]
    );
}

#[test]
fn sweep_is_capped_by_vllm_h200_fusion_policy() {
    let tp2 = sweep::<AllReduceResidualRmsNormSpec>(&all_reduce_residual_rms_norm_config(2));
    let tp4 = sweep::<AllReduceResidualRmsNormSpec>(&all_reduce_residual_rms_norm_config(4));
    assert_eq!(tp2.axes()[0].last(), Some(&8192.0));
    assert_eq!(tp4.axes()[0].last(), Some(&256.0));
    assert!(matches!(
        AllReduceResidualRmsNormSpec::cache_kind("flashinfer_trtllm"),
        CacheKind::Cache1DLinear
    ));
}

#[test]
fn all_reduce_residual_rms_norm_enumerate_matches_python_args_exactly() {
    let config = all_reduce_residual_rms_norm_config(4);
    let grid = sweep::<AllReduceResidualRmsNormSpec>(&config);
    let first =
        &payloads_of::<AllReduceResidualRmsNormSpec>(&config, &grid, "flashinfer_trtllm")[0];
    let fields = first.fields();
    assert_eq!(fields.len(), 10);
    assert_eq!(
        fields.get("backend"),
        Some(&Value::from("flashinfer_trtllm"))
    );
    assert_eq!(fields.get("num_gpus"), Some(&Value::from(4_u32)));
    assert_eq!(fields.get("num_tokens"), Some(&Value::from(1_u32)));
    assert_eq!(fields.get("hidden_dim"), Some(&Value::from(4096_u32)));
    assert_eq!(fields.get("dtype"), Some(&Value::from("bf16")));
    assert_eq!(fields.get("fabric"), Some(&Value::from("nvlink")));
    assert_eq!(fields.get("strategy"), Some(&Value::from("auto")));
    assert_eq!(fields.get("launch_with_pdl"), Some(&Value::from(true)));
    assert_eq!(
        fields.get("trigger_completion_at_end"),
        Some(&Value::from(false))
    );
    let thirty_two =
        &payloads_of::<AllReduceResidualRmsNormSpec>(&config, &grid, "flashinfer_trtllm")[5];
    assert_eq!(
        thirty_two.fields().get("num_tokens"),
        Some(&Value::from(32_u32))
    );
    assert_eq!(
        thirty_two.fields().get("trigger_completion_at_end"),
        Some(&Value::from(true))
    );
    assert_eq!(fields.get("fp32_acc"), Some(&Value::from(true)));
}
