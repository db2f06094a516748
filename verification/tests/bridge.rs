//! Wire payloads, measurements, errors and the state of a model build.

use timing::bridge::build_state::{
    check_result_count, collect_results, count_function, ensure_payload_backends_match,
    plan_count_missing, plan_get_times, shared_backend, times_function, BackendOverrideGuard,
    KernelMissing, PerfApiBridge,
};
use timing::bridge::error::{BuildError, PerfApiError};
use timing::bridge::metrics::KernelMetrics;
use timing::bridge::payload::{
    flag_value, number_value, text_value, ArgsPayload, DType, PayloadValue,
};
use timing::cache::interp::Metrics4;
use timing::cache::scalar::{Scalar, Wide};
use timing::kernels::config::{ConfigField, ConfigValue};
use timing::text_map::TextMap;

/// Single precision, as tables are held in.
#[derive(Clone, Copy, Debug, PartialEq, PartialOrd)]
struct F(f32);

/// Double precision, as sums are taken in.
#[derive(Clone, Copy, Debug, PartialEq, PartialOrd)]
struct D(f64);

impl Wide for D {
    fn from_count(count: u64) -> Self {
        D(count as f64)
    }

    fn from_ratio(numerator: u64, denominator: u64) -> Self {
        D(numerator as f64 / denominator as f64)
    }

    fn plus(self, other: Self) -> Self {
        D(self.0 + other.0)
    }

    fn minus(self, other: Self) -> Self {
        D(self.0 - other.0)
    }

    fn times(self, other: Self) -> Self {
        D(self.0 * other.0)
    }

    fn over(self, other: Self) -> Self {
        D(self.0 / other.0)
    }

    fn abs(self) -> Self {
        D(self.0.abs())
    }

    fn as_count(self) -> u64 {
        self.0 as u64
    }

    fn epsilon() -> Self {
        D(f64::EPSILON)
    }

    fn is_finite(self) -> bool {
        self.0.is_finite()
    }

    fn at_most(self, other: Self) -> bool {
        self.0 <= other.0
    }

    fn sorts_before(self, other: Self) -> bool {
        self.0.total_cmp(&other.0).is_lt()
    }
}

impl Scalar for F {
    type Wide = D;

    fn zero() -> Self {
        F(0.0)
    }

    fn one() -> Self {
        F(1.0)
    }

    fn from_count(count: u64) -> Self {
        F(count as f32)
    }

    fn plus(self, other: Self) -> Self {
        F(self.0 + other.0)
    }

    fn minus(self, other: Self) -> Self {
        F(self.0 - other.0)
    }

    fn times(self, other: Self) -> Self {
        F(self.0 * other.0)
    }

    fn over(self, other: Self) -> Self {
        F(self.0 / other.0)
    }

    fn is_tiny(self) -> bool {
        self.0.abs() <= f32::EPSILON
    }

    fn is_notable(self) -> bool {
        self.0.abs() > f32::EPSILON
    }

    fn is_nan(self) -> bool {
        self.0.is_nan()
    }

    fn is_finite(self) -> bool {
        self.0.is_finite()
    }

    fn as_index(self) -> usize {
        self.0 as usize
    }

    fn tolerance() -> Self {
        F(0.10)
    }

    fn band_fraction() -> Self {
        F(0.25)
    }

    fn is_step(self, spacing: Self) -> bool {
        (self.0 - spacing.0).abs() <= spacing.0 * 1e-3
    }

    fn widen(self) -> D {
        D(f64::from(self.0))
    }

    fn narrow(wide: D) -> Self {
        F(wide.0 as f32)
    }

    fn at_most(self, other: Self) -> bool {
        self.0 <= other.0
    }

    fn below(self, other: Self) -> bool {
        self.0 < other.0
    }
}

fn submap(pairs: &[(&str, &[&'static str])]) -> TextMap<Vec<&'static str>> {
    let mut map = TextMap::new();
    for (role, backends) in pairs {
        map.insert(role, backends.to_vec());
    }
    map
}

#[test]
fn override_scope_sets_by_role_and_clears_on_drop() {
    let mut bridge = PerfApiBridge::new();
    assert_eq!(bridge.backend_override_for("afd.moe_expert_compute.gate_up"), None);

    let map = submap(&[
        ("afd.moe_expert_compute.gate_up", &["fa3"]),
        ("afd.attn_block.qkv", &["fa2", "fa3"]),
    ]);
    let scope = bridge.with_backend_overrides("ffn", Some(map));
    assert_eq!(
        bridge.backend_override_for("afd.moe_expert_compute.gate_up"),
        Some(vec!["fa3"])
    );
    assert_eq!(bridge.backend_override_for("afd.attn_block.qkv"), Some(vec!["fa2", "fa3"]));
    assert_eq!(bridge.backend_override_for("afd.some.other"), None);
    bridge.restore(scope);
    assert_eq!(bridge.backend_override_for("afd.moe_expert_compute.gate_up"), None);
}

#[test]
fn override_scope_none_is_noop() {
    let mut bridge = PerfApiBridge::new();
    let _scope: BackendOverrideGuard = bridge.with_backend_overrides("main", None);
    assert_eq!(bridge.backend_override_for("anything"), None);
}

#[test]
fn sequential_scopes_do_not_leak_across_pools() {
    let mut bridge = PerfApiBridge::new();
    let attn = submap(&[("afd.attn_block.qkv", &["fa3"])]);
    let ffn = submap(&[("afd.moe_expert_compute.gate_up", &["deepgemm"])]);
    let scope = bridge.with_backend_overrides("attn", Some(attn));
    assert_eq!(bridge.backend_override_for("afd.attn_block.qkv"), Some(vec!["fa3"]));
    bridge.restore(scope);
    let scope = bridge.with_backend_overrides("ffn", Some(ffn));
    assert_eq!(bridge.backend_override_for("afd.attn_block.qkv"), None);
    assert_eq!(
        bridge.backend_override_for("afd.moe_expert_compute.gate_up"),
        Some(vec!["deepgemm"])
    );
    bridge.restore(scope);
}

#[test]
fn nested_override_scopes_restore_the_outer_map() {
    let mut bridge = PerfApiBridge::new();
    let outer = submap(&[("r", &["fa2"])]);
    let inner = submap(&[("r", &["fa3"])]);
    let _outer_scope = bridge.with_backend_overrides("p", Some(outer));
    assert_eq!(bridge.backend_override_for("r"), Some(vec!["fa2"]));
    let inner_scope = bridge.with_backend_overrides("p", Some(inner));
    assert_eq!(bridge.backend_override_for("r"), Some(vec!["fa3"]));
    bridge.restore(inner_scope);
    assert_eq!(bridge.backend_override_for("r"), Some(vec!["fa2"]));
}

fn one_field(name: &'static str, text: &str) -> Vec<ConfigField> {
    vec![ConfigField { name, value: ConfigValue::Text(text.to_string()) }]
}

#[test]
fn enumerate_records_are_pool_tagged_and_drained() {
    let mut bridge = PerfApiBridge::new();
    assert!(!bridge.is_enumerate());
    bridge.enable_enumerate();
    assert!(bridge.is_enumerate());
    let scope = bridge.with_backend_overrides("ffn", None);
    bridge.record_enum(
        "afd.moe.gate_up".to_string(),
        "grouped_gemm",
        "NVIDIA H200",
        Some(DType::Fp8E4m3),
        None,
        one_field("dtype", "Fp8E4m3"),
        &vec!["deepgemm"],
    );
    bridge.restore(scope);
    bridge.record_enum(
        "afd_qkv_transfer".to_string(),
        "p2p_inter",
        "NVIDIA H200",
        None,
        None,
        one_field("fabric", "Infiniband"),
        &vec!["nccl", "nvshmem"],
    );
    let report = bridge.take_enum_report();
    assert_eq!(report.len(), 2);
    assert_eq!(report[0].pool, "ffn");
    assert_eq!(report[0].name, "afd.moe.gate_up");
    assert_eq!(report[0].backends, vec!["deepgemm".to_string()]);
    assert_eq!(report[0].gpu, "NVIDIA H200");
    assert_eq!(report[0].compute_dtype, Some(DType::Fp8E4m3));
    assert_eq!(report[0].config, one_field("dtype", "Fp8E4m3"));
    assert_eq!(report[1].compute_dtype, None);
    assert_eq!(report[1].pool, "");
    assert!(bridge.take_enum_report().is_empty());
    assert!(bridge.is_enumerate());
}

#[test]
fn records_outside_their_mode_are_dropped() {
    let mut bridge = PerfApiBridge::new();
    bridge.record_missing("a".to_string(), "elementwise", 1, 2);
    bridge.record_enum("a".to_string(), "elementwise", "H", None, None, Vec::new(), &vec!["torch"]);
    assert!(!bridge.is_dry_run());
    assert!(bridge.take_dry_run_report().is_empty());
    assert!(bridge.take_enum_report().is_empty());
    assert!(!bridge.is_dry_run());
}

#[test]
fn a_dry_run_report_is_drained_and_goes_on() {
    let mut bridge = PerfApiBridge::new();
    bridge.enable_dry_run();
    bridge.record_missing("a".to_string(), "elementwise", 1, 2);
    bridge.record_missing("b".to_string(), "all_reduce", 0, 19);
    assert_eq!(
        bridge.take_dry_run_report(),
        vec![
            KernelMissing { name: "a".to_string(), kind: "elementwise", missing: 1, total: 2 },
            KernelMissing { name: "b".to_string(), kind: "all_reduce", missing: 0, total: 19 },
        ]
    );
    assert!(bridge.is_dry_run());
    assert!(bridge.take_dry_run_report().is_empty());
}

fn payload(backend: Option<&str>) -> ArgsPayload {
    let mut p = ArgsPayload::new();
    if let Some(backend) = backend {
        p.insert("backend", text_value(backend));
    }
    p
}

fn invalid(error: PerfApiError) -> String {
    match error {
        PerfApiError::InvalidRequest(text) => text,
        other => panic!("unexpected error {other:?}"),
    }
}

#[test]
fn ensure_payload_backends_match_passes_on_uniform_batch() {
    let batch = vec![payload(Some("torch")), payload(Some("torch"))];
    assert!(ensure_payload_backends_match(&batch, "torch").is_ok());
}

#[test]
fn ensure_payload_backends_match_rejects_kwarg_payload_mismatch() {
    let batch = vec![payload(Some("torch")), payload(Some("triton"))];
    let err = ensure_payload_backends_match(&batch, "torch").unwrap_err();
    assert!(matches!(err, PerfApiError::InvalidRequest(_)));
    assert_eq!(
        invalid(err),
        "count_missing backend kwarg 'torch' disagrees with spec[1].backend = 'triton'"
    );
}

#[test]
fn ensure_payload_backends_match_rejects_missing_backend_field() {
    let batch = vec![payload(None)];
    let err = ensure_payload_backends_match(&batch, "torch").unwrap_err();
    assert!(matches!(err, PerfApiError::InvalidRequest(_)));
    assert_eq!(invalid(err), "count_missing spec[0] is missing backend");
}

#[test]
fn shared_backend_rejects_empty_batch_instead_of_panic() {
    let err = shared_backend(&Vec::new()).unwrap_err();
    assert!(matches!(err, PerfApiError::InvalidRequest(_)));
    assert_eq!(invalid(err), "spec is missing backend");
}

#[test]
fn shared_backend_wants_one_backend() {
    let batch = vec![payload(Some("torch")), payload(Some("torch"))];
    assert_eq!(shared_backend(&batch).unwrap(), "torch");
    let batch = vec![payload(Some("torch")), payload(None)];
    assert_eq!(
        invalid(shared_backend(&batch).unwrap_err()),
        "bridge get_times requires one backend per batch"
    );
    let batch = vec![payload(None), payload(Some("torch"))];
    assert_eq!(invalid(shared_backend(&batch).unwrap_err()), "spec is missing backend");
}

#[test]
fn requests_name_the_function_of_their_kind() {
    assert_eq!(times_function("all_reduce"), "get_all_reduce_times");
    assert_eq!(count_function("all_reduce"), "count_missing_all_reduce");
    let batch = vec![payload(Some("torch"))];
    let call = plan_get_times(&batch, "all_reduce", "NVIDIA H200").unwrap().unwrap();
    assert_eq!(call.function, "get_all_reduce_times");
    assert_eq!(call.backend, "torch");
    assert_eq!(call.gpu_name, "NVIDIA H200");
    let call = plan_count_missing(&batch, "all_reduce", "torch", "NVIDIA H200").unwrap().unwrap();
    assert_eq!(call.function, "count_missing_all_reduce");
    assert!(plan_get_times(&Vec::new(), "all_reduce", "g").unwrap().is_none());
    assert!(plan_count_missing(&Vec::new(), "all_reduce", "torch", "g").unwrap().is_none());
    assert!(plan_count_missing(&batch, "all_reduce", "triton", "g").is_err());
    assert!(plan_get_times(&vec![payload(None)], "all_reduce", "g").is_err());
}

#[test]
fn every_shape_has_to_be_answered() {
    assert!(check_result_count(3, 3).is_ok());
    match check_result_count(2, 12).unwrap_err() {
        PerfApiError::TypeMismatch(text) => {
            assert_eq!(text, "perf_api returned 2 result(s) for 12 spec(s)");
        }
        other => panic!("unexpected error {other:?}"),
    }
}

#[test]
fn the_first_missing_shape_is_reported() {
    let specs = vec![payload(Some("a")), payload(Some("b")), payload(Some("c"))];
    assert_eq!(
        collect_results("elementwise", "torch", specs.clone(), &vec![Some(1), Some(2), Some(3)])
            .unwrap(),
        vec![1, 2, 3]
    );
    match collect_results("elementwise", "torch", specs, &vec![Some(1), None]).unwrap_err() {
        PerfApiError::MissingEntry { kind, backend, spec } => {
            assert_eq!(kind, "elementwise");
            assert_eq!(backend, "torch");
            assert_eq!(spec, payload(Some("b")));
        }
        other => panic!("unexpected error {other:?}"),
    }
}

#[test]
fn build_error_preserves_missing_entry_shape() {
    let mut spec = ArgsPayload::new();
    spec.insert("m", number_value(128));

    let error = BuildError::from_perf_api(
        "single_gemm",
        "torch",
        PerfApiError::MissingEntry {
            kind: "single_gemm",
            backend: "torch".to_string(),
            spec: spec.clone(),
        },
    );

    assert!(matches!(
        error,
        BuildError::MissingEntry {
            kind: "single_gemm",
            backend: "torch",
            spec: returned_spec,
        } if returned_spec == spec
    ));
}

#[test]
fn from_perf_api_wraps_non_missing_variants_in_bridge_error() {
    let error = BuildError::from_perf_api(
        "single_gemm",
        "torch",
        PerfApiError::InvalidRequest("boom".into()),
    );
    assert!(matches!(
        error,
        BuildError::BridgeError(PerfApiError::InvalidRequest(_)),
    ));
}

#[test]
fn dtype_wire_roundtrips_for_every_variant() {
    for dt in [
        DType::Fp16,
        DType::Bf16,
        DType::Fp32,
        DType::Fp8E4m3,
        DType::Fp8E5m2,
        DType::Int8,
        DType::Int4,
    ] {
        assert_eq!(DType::from_wire(dt.as_str()), Some(dt));
    }
    assert_eq!(DType::from_wire("Bf16"), None);
}

#[test]
fn args_payload_with_builds_in_one_expression() {
    let payload = ArgsPayload::new()
        .with("backend", text_value("torch"))
        .with("m", number_value(1024))
        .with("dtype", text_value(DType::Fp16.as_str()));
    let fields = payload.fields();
    assert_eq!(fields.get("backend"), Some(&PayloadValue::Text("torch".to_string())));
    assert_eq!(fields.get("m"), Some(&PayloadValue::Number(1024)));
    assert_eq!(fields.get("dtype"), Some(&PayloadValue::Text("fp16".to_string())));
    assert_eq!(payload.backend(), Some("torch"));
}

#[test]
fn a_payload_keeps_the_last_value_of_a_field() {
    let payload = ArgsPayload::new()
        .with("causal", flag_value(true))
        .with("backend", number_value(3))
        .with("causal", flag_value(false));
    assert_eq!(payload.fields().len(), 2);
    assert_eq!(payload.get("causal"), Some(&PayloadValue::Flag(false)));
    assert_eq!(payload.get("absent"), None);
    assert_eq!(payload.backend(), None);
}

fn metrics(time_ms: f64, tflops: Option<f64>) -> KernelMetrics<D> {
    KernelMetrics {
        time_ms: D(time_ms),
        tflops: tflops.map(D),
        memory_bandwidth_gbps: None,
        algbw_gbps: None,
        busbw_gbps: None,
        energy_j: D(0.0),
    }
}

#[test]
fn is_finite_rejects_nan_inf_and_negative() {
    assert!(metrics(1.0, Some(1.0)).is_finite());
    assert!(!metrics(f64::NAN, Some(1.0)).is_finite());
    assert!(!metrics(f64::INFINITY, Some(1.0)).is_finite());
    assert!(!metrics(-1.0, Some(1.0)).is_finite());
    assert!(!metrics(1.0, Some(f64::NAN)).is_finite());
    assert!(!metrics(1.0, Some(-1.0)).is_finite());
}

#[test]
fn flops_and_bytes_return_zero_on_nan_inf() {
    assert_eq!(metrics(f64::NAN, Some(1.0)).flops(), 0);
    assert_eq!(metrics(1.0, Some(f64::INFINITY)).flops(), 0);

    let mut m = metrics(f64::NAN, None);
    m.memory_bandwidth_gbps = Some(D(1.0));
    assert_eq!(m.bytes(), 0);
}

#[test]
fn bytes_derives_from_busbw_on_comm_rows() {
    let mut m = metrics(2.0, None);
    m.busbw_gbps = Some(D(50.0));
    assert_eq!(m.bytes(), 100_000_000);
}

#[test]
fn bytes_prefers_memory_bandwidth_when_both_rates_present() {
    let mut m = metrics(2.0, None);
    m.memory_bandwidth_gbps = Some(D(100.0));
    m.busbw_gbps = Some(D(50.0));
    assert_eq!(m.bytes(), 200_000_000);
}

#[test]
fn bytes_is_zero_without_any_rate() {
    assert_eq!(metrics(1.0, None).bytes(), 0);
}

#[test]
fn a_measurement_becomes_a_sample_unless_it_is_dropped() {
    let mut m = metrics(2.0, Some(3.0));
    m.memory_bandwidth_gbps = Some(D(100.0));
    m.energy_j = D(0.5);
    let kept = Metrics4::<F>::keep_sample(&m).unwrap();
    assert_eq!(kept.time_ms, F(2.0));
    assert_eq!(kept.flops, F(6.0e9));
    assert_eq!(kept.bytes, F(2.0e8));
    assert_eq!(kept.energy_j, F(0.5));
    m.algbw_gbps = Some(D(-1.0));
    assert!(Metrics4::<F>::keep_sample(&m).is_none());
}
