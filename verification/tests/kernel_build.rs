//! Building kernels: requests, dry runs, enumerations, tables and lookups.

use timing::bridge::build_state::{KernelMissing, PerfApiBridge};
use timing::bridge::error::{BuildError, PerfApiError};
use timing::bridge::metrics::KernelMetrics;
use timing::bridge::payload::{ArgsPayload, DType};
use timing::cache::cells::FitWarning;
use timing::cache::interp::{CoverageFlags, NO_BACKEND};
use timing::cache::scalar::{Scalar, Wide};
use timing::kernels::config::{describe_line, KernelConfig};
use timing::kernels::elementwise::{
    ElementwiseKernelConfig, ElementwiseKernelInput, ElementwiseSpec,
};
use timing::kernels::feasible::{drop_infeasible, place_feasible};
use timing::kernels::gdn_chunk_delta_rule::{
    GdnChunkDeltaRuleKernelConfig, GdnChunkDeltaRuleKernelInput, GdnChunkDeltaRuleSpec,
};
use timing::kernels::kernel::{
    ensure_backends_fit, ensure_has_backends, BuildStart, Kernel, KernelBuild,
};
use timing::text_map::TextMap;

/// Single precision, as tables are held in.
#[derive(Clone, Copy, Debug, PartialEq, PartialOrd)]
struct F(f32);

/// Double precision, as sums are taken in.
#[derive(Clone, Copy, Debug, PartialEq, PartialOrd)]
struct D(f64);

impl Wide for D {
    fn from_count(count: u64) -> Self {
        D(count as f64)
    }

    fn from_ratio(numerator: u64, denominator: u64) -> Self {
        D(numerator as f64 / denominator as f64)
    }

    fn plus(self, other: Self) -> Self {
        D(self.0 + other.0)
    }

    fn minus(self, other: Self) -> Self {
        D(self.0 - other.0)
    }

    fn times(self, other: Self) -> Self {
        D(self.0 * other.0)
    }

    fn over(self, other: Self) -> Self {
        D(self.0 / other.0)
    }

    fn abs(self) -> Self {
        D(self.0.abs())
    }

    fn as_count(self) -> u64 {
        self.0 as u64
    }

    fn epsilon() -> Self {
        D(f64::EPSILON)
    }

    fn is_finite(self) -> bool {
        self.0.is_finite()
    }

    fn at_most(self, other: Self) -> bool {
        self.0 <= other.0
    }

    fn sorts_before(self, other: Self) -> bool {
        self.0.total_cmp(&other.0).is_lt()
    }
}

impl Scalar for F {
    type Wide = D;

    fn zero() -> Self {
        F(0.0)
    }

    fn one() -> Self {
        F(1.0)
    }

    fn from_count(count: u64) -> Self {
        F(count as f32)
    }

    fn plus(self, other: Self) -> Self {
        F(self.0 + other.0)
    }

    fn minus(self, other: Self) -> Self {
        F(self.0 - other.0)
    }

    fn times(self, other: Self) -> Self {
        F(self.0 * other.0)
    }

    fn over(self, other: Self) -> Self {
        F(self.0 / other.0)
    }

    fn is_tiny(self) -> bool {
        self.0.abs() <= f32::EPSILON
    }

    fn is_notable(self) -> bool {
        self.0.abs() > f32::EPSILON
    }

    fn is_nan(self) -> bool {
        self.0.is_nan()
    }

    fn is_finite(self) -> bool {
        self.0.is_finite()
    }

    fn as_index(self) -> usize {
        self.0 as usize
    }

    fn tolerance() -> Self {
        F(0.10)
    }

    fn band_fraction() -> Self {
        F(0.25)
    }

    fn is_step(self, spacing: Self) -> bool {
        (self.0 - spacing.0).abs() <= spacing.0 * 1e-3
    }

    fn widen(self) -> D {
        D(f64::from(self.0))
    }

    fn narrow(wide: D) -> Self {
        F(wide.0 as f32)
    }

    fn at_most(self, other: Self) -> bool {
        self.0 <= other.0
    }

    fn below(self, other: Self) -> bool {
        self.0 < other.0
    }
}

fn config() -> ElementwiseKernelConfig {
    ElementwiseKernelConfig {
        backends: vec!["triton", "torch"],
        gpu_name: "H100".to_string(),
        input_bytes_per_token: 8192,
        output_bytes_per_token: 4096,
    }
}

fn measured(time_ms: f64) -> KernelMetrics<D> {
    KernelMetrics {
        time_ms: D(time_ms),
        tflops: Some(D(1.0)),
        memory_bandwidth_gbps: Some(D(2.0)),
        algbw_gbps: None,
        busbw_gbps: None,
        energy_j: D(0.0),
    }
}

type Build = KernelBuild<F, ElementwiseSpec>;

fn begin(bridge: &mut PerfApiBridge, tokens: &[u32]) -> Build {
    let name = "model.act".to_string();
    match Build::begin(name, config(), &tokens.to_vec(), bridge) {
        Ok(BuildStart::Begun(build)) => build,
        Ok(BuildStart::Recorded(_)) => panic!("nothing is enumerated"),
        Err(error) => panic!("unexpected error {error:?}"),
    }
}

#[test]
fn ensure_has_backends_rejects_empty_backend_lists() {
    assert!(matches!(
        ensure_has_backends("single_gemm", "backends", &vec![]),
        Err(BuildError::FitFailed { .. })
    ));
    match ensure_has_backends("single_gemm", "SingleGemmKernelConfig.backends", &vec![]) {
        Err(BuildError::FitFailed { kind, reason }) => {
            assert_eq!(kind, "single_gemm");
            assert_eq!(reason, "SingleGemmKernelConfig.backends must not be empty");
        }
        other => panic!("unexpected outcome {other:?}"),
    }
    assert!(ensure_has_backends("single_gemm", "backends", &vec!["torch"]).is_ok());
}

#[test]
fn a_build_asks_every_backend_and_takes_the_fastest() {
    let mut bridge = PerfApiBridge::new();
    let build = begin(&mut bridge, &[32, 64]);

    let request = build.next_request().unwrap();
    assert!(!request.counting);
    assert_eq!(request.kind, "elementwise");
    assert_eq!(request.backend, "triton");
    assert_eq!(request.gpu, "H100");
    assert_eq!(request.specs.len(), 2);
    assert!(request.specs.iter().all(|spec: &ArgsPayload| spec.backend() == Some("triton")));
    let build = build.measured(Ok(vec![measured(1.0), measured(4.0)])).unwrap();

    assert_eq!(build.next_backend(), Some("torch"));
    let build = build.measured(Ok(vec![measured(2.0), measured(3.0)])).unwrap();
    assert!(build.next_request().is_none());

    let kernel: Kernel<F, ElementwiseSpec> = build.finish(&mut bridge);
    assert!(kernel.outlier_warnings.is_empty());
    assert_eq!(kernel.eval(&ElementwiseKernelInput { num_tokens: 32 }).m.time_ms, F(1.0));
    assert_eq!(kernel.eval(&ElementwiseKernelInput { num_tokens: 48 }).m.time_ms, F(2.5));
    assert_eq!(kernel.eval(&ElementwiseKernelInput { num_tokens: 64 }).m.time_ms, F(3.0));
    let beyond = kernel.eval(&ElementwiseKernelInput { num_tokens: 96 });
    assert_eq!(beyond.m.time_ms, F(4.0));
    assert!(beyond.coverage.contains(CoverageFlags::extrapolated()));
    assert!(bridge.take_dry_run_report().is_empty());
}

#[test]
fn a_cost_names_the_backend_that_it_is_for() {
    let mut bridge = PerfApiBridge::new();
    let build = begin(&mut bridge, &[32, 64]);
    let build = build.measured(Ok(vec![measured(1.0), measured(4.0)])).unwrap();
    let build = build.measured(Ok(vec![measured(2.0), measured(3.0)])).unwrap();
    let kernel = build.finish(&mut bridge);
    assert_eq!(kernel.eval(&ElementwiseKernelInput { num_tokens: 32 }).backend_index, 0);
    assert_eq!(kernel.eval(&ElementwiseKernelInput { num_tokens: 64 }).backend_index, 1);

    let build = begin(&mut bridge, &[32]);
    let build = build.measured(Ok(vec![measured(f64::NAN)])).unwrap();
    let build = build.measured(Ok(vec![measured(f64::NAN)])).unwrap();
    let missed = build.finish(&mut bridge).eval(&ElementwiseKernelInput { num_tokens: 32 });
    assert_eq!(missed.backend_index, NO_BACKEND);
    assert!(missed.coverage.contains(CoverageFlags::no_coverage()));
}

#[test]
fn a_kernel_has_no_more_backends_than_can_be_told_apart() {
    assert!(ensure_backends_fit("elementwise", "backends", &vec!["torch"; 255]).is_ok());
    match ensure_backends_fit("elementwise", "backends", &vec!["torch"; 256]) {
        Err(BuildError::FitFailed { kind, reason }) => {
            assert_eq!(kind, "elementwise");
            assert_eq!(reason, "backends must not list more than 255 backends");
        }
        other => panic!("unexpected outcome {other:?}"),
    }
    let mut crowded = config();
    crowded.backends = vec!["torch"; 256];
    let mut bridge = PerfApiBridge::new();
    let start = Build::begin("model.act".to_string(), crowded, &vec![32], &mut bridge);
    assert!(matches!(start, Err(BuildError::FitFailed { .. })));
}

#[test]
fn a_warning_names_cells_of_the_table() {
    let mut bridge = PerfApiBridge::new();
    let build = begin(&mut bridge, &[64, 32, 128]);
    assert!(build.last_table().is_none());
    let times = vec![measured(1.0), measured(2.0), measured(f64::NAN)];
    let build = build.measured(Ok(times)).unwrap();
    assert_eq!(
        build.warnings(),
        &vec![
            FitWarning::Dropped { cell: 2 },
            FitWarning::Break { axis: 0, before: 0, after: 1 },
        ]
    );
    let table = build.last_table().unwrap();
    assert_eq!(table.cell(0), Some((vec![F(32.0)], Some(F(2.0)))));
    assert_eq!(table.cell(1), Some((vec![F(64.0)], Some(F(1.0)))));
    assert_eq!(table.cell(2), None);
}

#[test]
fn a_failed_request_ends_the_build() {
    let mut bridge = PerfApiBridge::new();
    let build = begin(&mut bridge, &[32]);
    let error = PerfApiError::MissingEntry {
        kind: "elementwise",
        backend: "triton".to_string(),
        spec: ArgsPayload::new(),
    };
    assert!(matches!(
        build.measured(Err(error)),
        Err(BuildError::MissingEntry { kind: "elementwise", backend: "triton", .. })
    ));

    bridge.enable_dry_run();
    let build = begin(&mut bridge, &[32]);
    assert!(matches!(
        build.counted(Err(PerfApiError::Python("boom".to_string()))),
        Err(BuildError::BridgeError(PerfApiError::Python(_)))
    ));
}

#[test]
fn a_dry_run_counts_what_is_missing() {
    let mut bridge = PerfApiBridge::new();
    bridge.enable_dry_run();
    let build = begin(&mut bridge, &[32, 64, 128]);
    assert!(build.next_request().unwrap().counting);
    let build = build.counted(Ok(2)).unwrap();
    let build = build.counted(Ok(1)).unwrap();
    let kernel = build.finish(&mut bridge);
    assert!(kernel.backend_caches.is_empty());
    assert_eq!(
        bridge.take_dry_run_report(),
        vec![KernelMissing {
            name: "model.act".to_string(),
            kind: "elementwise",
            missing: 3,
            total: 6,
        }]
    );
}

#[test]
fn an_enumeration_records_the_kernel_and_asks_nothing() {
    let mut bridge = PerfApiBridge::new();
    bridge.enable_enumerate();
    let scope = bridge.with_backend_overrides("main", None);
    let start = Build::begin("model.act".to_string(), config(), &vec![32], &mut bridge);
    assert!(matches!(start, Ok(BuildStart::Recorded(_))));
    bridge.restore(scope);
    let report = bridge.take_enum_report();
    assert_eq!(report.len(), 1);
    assert_eq!(report[0].pool, "main");
    assert_eq!(report[0].name, "model.act");
    assert_eq!(report[0].kind, "elementwise");
    assert_eq!(report[0].gpu, "H100");
    assert_eq!(report[0].backends, ["triton", "torch"]);
    assert_eq!(describe_line(&report[0].config), describe_line(&config().describe_config()));
}

#[test]
fn overrides_replace_the_candidates_of_a_kernel() {
    let mut bridge = PerfApiBridge::new();
    let mut map = TextMap::new();
    map.insert("model.act", vec!["cutlass"]);
    let scope = bridge.with_backend_overrides("main", Some(map));
    assert_eq!(begin(&mut bridge, &[32]).next_backend(), Some("cutlass"));
    bridge.restore(scope);
    assert_eq!(begin(&mut bridge, &[32]).next_backend(), Some("triton"));

    let mut map = TextMap::new();
    map.insert("model.act", vec![]);
    let _scope = bridge.with_backend_overrides("main", Some(map));
    match Build::begin("model.act".to_string(), config(), &vec![32], &mut bridge) {
        Err(BuildError::FitFailed { reason, .. }) => {
            assert_eq!(reason, "ElementwiseKernelConfig.backends must not be empty");
        }
        _ => panic!("a kernel needs a backend"),
    }
}

#[test]
fn an_enumeration_goes_by_the_candidates_of_a_kernel() {
    let mut bridge = PerfApiBridge::new();
    bridge.enable_enumerate();
    let mut map = TextMap::new();
    map.insert("model.act", vec![]);
    let scope = bridge.with_backend_overrides("main", Some(map));
    let start = Build::begin("model.act".to_string(), config(), &vec![32], &mut bridge);
    assert!(matches!(start, Ok(BuildStart::Recorded(_))));
    bridge.restore(scope);

    let mut map = TextMap::new();
    map.insert("model.act", vec!["cutlass"]);
    let scope = bridge.with_backend_overrides("main", Some(map));
    let bare = ElementwiseKernelConfig { backends: vec![], ..config() };
    match Build::begin("model.act".to_string(), bare, &vec![32], &mut bridge) {
        Err(BuildError::FitFailed { kind, reason }) => {
            assert_eq!(kind, "elementwise");
            assert_eq!(reason, "ElementwiseKernelConfig.backends must not be empty");
        }
        _ => panic!("a kernel needs a candidate"),
    }
    bridge.restore(scope);
    let report = bridge.take_enum_report();
    assert_eq!(report.len(), 1);
    assert_eq!(report[0].backends, ["triton", "torch"]);
}

#[test]
fn infeasible_cells_are_not_asked_about_and_stay_empty() {
    let config = GdnChunkDeltaRuleKernelConfig {
        backends: vec!["flashinfer"],
        gpu_name: "NVIDIA H200".to_string(),
        num_key_heads: 16.into(),
        num_heads: 32.into(),
        key_head_dim: 128.into(),
        value_head_dim: 128.into(),
        dtype: DType::Bf16,
    };
    let mut bridge = PerfApiBridge::new();
    let start = KernelBuild::<F, GdnChunkDeltaRuleSpec>::begin(
        "gdn".to_string(),
        config,
        &Vec::new(),
        &mut bridge,
    );
    let Ok(BuildStart::Begun(build)) = start else {
        panic!("a build begins");
    };
    let request = build.next_request().unwrap();
    assert_eq!(request.specs.len(), 45 - 3);
    let times = (0..42).map(|i| measured(1.0 + f64::from(i))).collect();
    let kernel = build.measured(Ok(times)).unwrap().finish(&mut bridge);
    let dropped: Vec<usize> = kernel
        .outlier_warnings
        .iter()
        .filter_map(|warning| match warning {
            FitWarning::Dropped { cell } => Some(*cell),
            FitWarning::Break { .. } => None,
        })
        .collect();
    assert_eq!(dropped, vec![39, 43, 44]);
    let first = kernel.eval(&GdnChunkDeltaRuleKernelInput { num_tokens: 64, max_sequence_length: 64 });
    assert_eq!(first.m.time_ms, F(1.0));
    let dropped = kernel.eval(&GdnChunkDeltaRuleKernelInput {
        num_tokens: 16384 * 16,
        max_sequence_length: 16384,
    });
    assert!(!dropped.coverage.is_empty());
}

#[test]
fn dropped_cells_leave_gaps() {
    let mask = vec![false, true, false, true, true];
    assert_eq!(drop_infeasible(vec!['a', 'b', 'c', 'd', 'e'], &mask), vec!['a', 'c']);
    assert_eq!(
        place_feasible(&vec!['a', 'c'], &mask),
        vec![Some('a'), None, Some('c'), None, None]
    );
    assert_eq!(drop_infeasible(vec![1, 2], &Vec::new()), vec![1, 2]);
    assert_eq!(place_feasible(&vec![1, 2], &Vec::new()), vec![Some(1), Some(2)]);
}
