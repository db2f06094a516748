//! Interpolation tables: fitting, looking up, extrapolating.

use timing::bridge::error::BuildError;
use timing::bridge::metrics::KernelMetrics;
use timing::cache::backend::BackendCache;
use timing::cache::cells::{Cells, FitWarning};
use timing::cache::direct_1d::{uniform_axis, Cache1DDirect};
use timing::cache::interp::{locate, CoverageFlags, LeafMetrics, Metrics4, NO_BACKEND};
use timing::cache::linear_1d::Cache1DLinear;
use timing::cache::linear_2d::Cache2DLinear;
use timing::cache::linear_3d::{decode_index, flat_index, Cache3DLinear};
use timing::cache::order::sort_order;
use timing::cache::peak::{peak_over_cells, PeakRates};
use timing::cache::scalar::{Fixed, Scalar, Wide};
use timing::cache::{build_cache, Cache, CacheKind, Extrapolation, OutlierKind};
use timing::sweep::Axis;

/// Single precision, as tables are held in.
#[derive(Clone, Copy, Debug, PartialEq, PartialOrd)]
struct F(f32);

/// Double precision, as sums are taken in.
#[derive(Clone, Copy, Debug, PartialEq, PartialOrd)]
struct D(f64);

impl Wide for D {
    fn from_count(count: u64) -> Self {
        D(count as f64)
    }

    fn from_ratio(numerator: u64, denominator: u64) -> Self {
        D(numerator as f64 / denominator as f64)
    }

    fn plus(self, other: Self) -> Self {
        D(self.0 + other.0)
    }

    fn minus(self, other: Self) -> Self {
        D(self.0 - other.0)
    }

    fn times(self, other: Self) -> Self {
        D(self.0 * other.0)
    }

    fn over(self, other: Self) -> Self {
        D(self.0 / other.0)
    }

    fn abs(self) -> Self {
        D(self.0.abs())
    }

    fn as_count(self) -> u64 {
        self.0 as u64
    }

    fn epsilon() -> Self {
        D(f64::EPSILON)
    }

    fn is_finite(self) -> bool {
        self.0.is_finite()
    }

    fn at_most(self, other: Self) -> bool {
        self.0 <= other.0
    }

    fn sorts_before(self, other: Self) -> bool {
        self.0.total_cmp(&other.0).is_lt()
    }
}

impl Scalar for F {
    type Wide = D;

    fn zero() -> Self {
        F(0.0)
    }

    fn one() -> Self {
        F(1.0)
    }

    fn from_count(count: u64) -> Self {
        F(count as f32)
    }

    fn plus(self, other: Self) -> Self {
        F(self.0 + other.0)
    }

    fn minus(self, other: Self) -> Self {
        F(self.0 - other.0)
    }

    fn times(self, other: Self) -> Self {
        F(self.0 * other.0)
    }

    fn over(self, other: Self) -> Self {
        F(self.0 / other.0)
    }

    fn is_tiny(self) -> bool {
        self.0.abs() <= f32::EPSILON
    }

    fn is_notable(self) -> bool {
        self.0.abs() > f32::EPSILON
    }

    fn is_nan(self) -> bool {
        self.0.is_nan()
    }

    fn is_finite(self) -> bool {
        self.0.is_finite()
    }

    fn as_index(self) -> usize {
        self.0 as usize
    }

    fn tolerance() -> Self {
        F(0.10)
    }

    fn band_fraction() -> Self {
        F(0.25)
    }

    fn is_step(self, spacing: Self) -> bool {
        (self.0 - spacing.0).abs() <= spacing.0 * 1e-3
    }

    fn widen(self) -> D {
        D(f64::from(self.0))
    }

    fn narrow(wide: D) -> Self {
        F(wide.0 as f32)
    }

    fn at_most(self, other: Self) -> bool {
        self.0 <= other.0
    }

    fn below(self, other: Self) -> bool {
        self.0 < other.0
    }
}

/// A measurement of a compute kernel.
fn sample(time_ms: f64) -> KernelMetrics<D> {
    sample_with_energy(time_ms, time_ms)
}

fn sample_with_energy(time_ms: f64, energy_j: f64) -> KernelMetrics<D> {
    KernelMetrics {
        time_ms: D(time_ms),
        tflops: Some(D(1.0)),
        memory_bandwidth_gbps: Some(D(2.0)),
        algbw_gbps: None,
        busbw_gbps: None,
        energy_j: D(energy_j),
    }
}

fn finite_sample(time_ms: f64) -> KernelMetrics<D> {
    sample_with_energy(time_ms, 1.0)
}

fn nan_sample() -> KernelMetrics<D> {
    let mut m = sample(0.0);
    m.time_ms = D(f64::NAN);
    m
}

fn kept(samples: &[KernelMetrics<D>]) -> Vec<Option<Metrics4<F>>> {
    samples.iter().map(Metrics4::keep_sample).collect()
}

fn axis(points: &[f64]) -> Vec<D> {
    points.iter().map(|&x| D(x)).collect()
}

fn whole(points: Vec<u32>) -> Vec<f64> {
    points.into_iter().map(f64::from).collect()
}

fn at(points: &[f64]) -> Vec<F> {
    points.iter().map(|&x| F(x as f32)).collect()
}

/// A stand-in for the token axis that kernels share.
fn token_axis() -> Vec<u32> {
    let mut points = vec![32, 64, 128, 256];
    points.extend((384..=4096).step_by(128));
    points.extend((4352..=8192).step_by(256));
    points.extend((9216..=16384).step_by(1024));
    points.extend([20480, 24576, 32768, 49152, 65536]);
    points
}

fn fit_1d(points: &[f64], samples: &[KernelMetrics<D>]) -> (Cache1DLinear<F>, Vec<FitWarning>) {
    Cache1DLinear::from_samples(&axis(points), &kept(samples))
}

fn fit_direct(points: &[f64], samples: &[KernelMetrics<D>]) -> (Cache1DDirect<F>, Vec<FitWarning>) {
    let points = axis(points);
    assert!(uniform_axis::<F>(&points));
    Cache1DDirect::from_samples(&points, &kept(samples))
}

fn fit_2d(
    axis0: &[f64],
    axis1: &[f64],
    samples: &[KernelMetrics<D>],
) -> (Cache2DLinear<F>, Vec<FitWarning>) {
    Cache2DLinear::from_samples(&axis(axis0), &axis(axis1), &kept(samples))
}

fn fit_2d_with(
    axis0: &[f64],
    axis1: &[f64],
    samples: &[KernelMetrics<D>],
    extrapolation: Extrapolation,
) -> Cache2DLinear<F> {
    Cache2DLinear::from_samples_with(&axis(axis0), &axis(axis1), &kept(samples), extrapolation).0
}

#[test]
fn backend_cache_lookup_stamps_selected_backend_on_inner_leaf() {
    let axes = vec![axis(&[1.0, 2.0])];
    let (cache, _warnings) = BackendCache::fit(
        "single_gemm",
        "torch",
        CacheKind::Cache1DLinear,
        &axes,
        &kept(&[finite_sample(1.0), finite_sample(3.0)]),
    )
    .expect("fit must succeed for a finite 1D batch");

    let result = cache.lookup(&at(&[1.5]));
    assert_eq!(result.selected_backend, Some("torch"));
    assert_eq!(result.leaf.m.time_ms, F(2.0));
    assert_eq!(cache.annotate("a detail"), "torch:Cache1DLinear: a detail");
}

/// Grid 0,64,128,192,256 with times 1,2,3,4,5.
fn grid_64() -> (Vec<f64>, Vec<KernelMetrics<D>>) {
    let samples = (1..=5).map(|t| finite_sample(f64::from(t))).collect();
    (whole(Axis::arithmetic(0, 256, 64)), samples)
}

#[test]
fn floor_indexes_to_the_containing_bucket() {
    let (points, samples) = grid_64();
    let (cache, warnings) = fit_direct(&points, &samples);
    assert!(warnings.is_empty());

    assert_eq!(cache.eval(&at(&[0.0])).m.time_ms, F(1.0));
    assert_eq!(cache.eval(&at(&[128.0])).m.time_ms, F(3.0));
    assert_eq!(cache.eval(&at(&[100.0])).m.time_ms, F(2.0));
    assert_eq!(cache.eval(&at(&[191.0])).m.time_ms, F(3.0));
    assert_eq!(cache.eval(&at(&[192.0])).m.time_ms, F(4.0));
    assert!(cache.eval(&at(&[100.0])).coverage.is_empty());
}

#[test]
fn out_of_range_extrapolates_right_and_clamps_left() {
    let (points, samples) = grid_64();
    let (cache, _) = fit_direct(&points, &samples);

    let double = cache.eval(&at(&[512.0]));
    assert_eq!(double.m.time_ms, F(10.0));
    assert!(double.coverage.contains(CoverageFlags::extrapolated()));

    let high = cache.eval(&at(&[9999.0]));
    assert!((high.m.time_ms.0 - (9999.0 / 256.0 * 5.0)).abs() < 0.05);
    assert!(high.coverage.contains(CoverageFlags::extrapolated()));

    let low = cache.eval(&at(&[-50.0]));
    assert_eq!(low.m.time_ms, F(1.0));
    assert!(low.coverage.contains(CoverageFlags::extrapolated()));
}

#[test]
fn right_edge_extrapolation_uses_ratio_for_negative_right_edge() {
    let (cache, _) = fit_direct(&[-128.0, -64.0], &[finite_sample(2.0), finite_sample(4.0)]);
    let result = cache.eval(&at(&[-32.0]));
    assert_eq!(result.m.time_ms, F(2.0));
    assert!(result.coverage.contains(CoverageFlags::extrapolated()));
}

#[test]
fn direct_1d_nan_coordinate_returns_no_coverage_zero() {
    let (points, samples) = grid_64();
    let (cache, _) = fit_direct(&points, &samples);

    let result = cache.eval(&at(&[f64::NAN]));
    assert_eq!(result.m.time_ms, F(0.0));
    assert!(result.coverage.contains(CoverageFlags::no_coverage()));
}

#[test]
fn dropped_bucket_returns_no_coverage() {
    let mut nan = finite_sample(0.0);
    nan.time_ms = D(f64::NAN);
    let samples = vec![finite_sample(1.0), nan, finite_sample(3.0), finite_sample(4.0)];
    let (cache, warnings) = fit_direct(&whole(Axis::arithmetic(0, 192, 64)), &samples);
    assert_eq!(warnings.len(), 1);
    assert_eq!(warnings[0].kind(), OutlierKind::NonFinite);

    let dropped = cache.eval(&at(&[80.0]));
    assert_eq!(dropped.m.time_ms, F(0.0));
    assert!(dropped.coverage.contains(CoverageFlags::no_coverage()));
    assert_eq!(cache.eval(&at(&[128.0])).m.time_ms, F(3.0));
}

#[test]
fn non_monotonic_time_flags_break() {
    let (_cache, warnings) = fit_direct(
        &whole(Axis::arithmetic(0, 128, 64)),
        &[finite_sample(1.0), finite_sample(0.4), finite_sample(2.0)],
    );
    assert!(warnings.iter().any(|w| w.kind() == OutlierKind::MonotonicityBreak));
    assert_eq!(warnings, vec![FitWarning::Break { axis: 0, before: 0, after: 1 }]);
}

#[test]
fn an_axis_has_to_ascend_in_equal_steps() {
    assert!(uniform_axis::<F>(&axis(&[0.0, 64.0, 128.0])));
    assert!(!uniform_axis::<F>(&axis(&[0.0, 64.0, 127.0])));
    assert!(!uniform_axis::<F>(&axis(&[64.0, 0.0])));
    assert!(!uniform_axis::<F>(&axis(&[64.0])));
}

fn leaf(time_ms: f32, backend: u8) -> LeafMetrics<F> {
    LeafMetrics {
        m: Metrics4 { time_ms: F(time_ms), flops: F(0.0), bytes: F(0.0), energy_j: F(0.0) },
        coverage: CoverageFlags::empty(),
        backend_index: backend,
    }
}

#[test]
fn add_fanin_adopts_first_executed_backend() {
    let mut acc = LeafMetrics::<F>::zero();
    assert_eq!(acc.backend_index, NO_BACKEND);
    acc.add_fanin(leaf(2.0, 1));
    assert_eq!(acc.backend_index, 1);
    assert_eq!(acc.m.time_ms, F(2.0));
    acc.add_fanin(leaf(3.0, 0));
    assert_eq!(acc.backend_index, 1);
    assert_eq!(acc.m.time_ms, F(5.0));
}

#[test]
fn plain_add_stays_backendless() {
    let mut acc = LeafMetrics::<F>::zero();
    acc.add(leaf(2.0, 1));
    assert_eq!(acc.backend_index, NO_BACKEND);
    assert_eq!(acc.m.time_ms, F(2.0));
}

#[test]
fn coverage_flags_join_and_tell_apart() {
    let none = CoverageFlags::empty();
    let all = CoverageFlags::extrapolated().with(CoverageFlags::jit()).with(CoverageFlags::no_coverage());
    assert_eq!(none.bits(), 0);
    assert_eq!(CoverageFlags::extrapolated().bits(), 1);
    assert_eq!(CoverageFlags::jit().bits(), 2);
    assert_eq!(CoverageFlags::no_coverage().bits(), 4);
    assert_eq!(all.bits(), 7);
    assert!(all.contains(CoverageFlags::jit()) && !CoverageFlags::jit().contains(all));
    assert_eq!(all.with(none), all);
    assert!(none.is_empty() && !all.is_empty());
}

#[test]
fn linear_1d_interpolates_and_extrapolates() {
    let samples = vec![sample_with_energy(1.0, 3.0), sample_with_energy(3.0, 5.0)];
    let (cache, warnings) = fit_1d(&[1.0, 2.0], &samples);
    assert!(warnings.is_empty());

    let inside = cache.eval(&at(&[1.5]));
    assert_eq!(inside.m.time_ms, F(2.0));
    assert!(inside.coverage.is_empty());

    let outside = cache.eval(&at(&[3.0]));
    assert_eq!(outside.m.time_ms, F(5.0));
    assert!(outside.coverage.contains(CoverageFlags::extrapolated()));
}

#[test]
fn non_finite_samples_become_outlier_warnings_and_are_dropped() {
    let samples = vec![
        sample_with_energy(1.0, 1.0),
        sample_with_energy(f64::NAN, 2.0),
        sample_with_energy(3.0, 3.0),
    ];
    let (cache, warnings) = fit_1d(&[1.0, 2.0, 3.0], &samples);
    assert_eq!(warnings.len(), 1);
    assert_eq!(warnings[0].kind(), OutlierKind::NonFinite);

    let mid = cache.eval(&at(&[2.0]));
    assert_eq!(mid.m.time_ms, F(2.0));
}

#[test]
fn linear_1d_all_non_finite_samples_make_empty_cache_flagged_no_coverage() {
    let samples = vec![sample_with_energy(f64::NAN, 1.0), sample_with_energy(f64::INFINITY, 1.0)];
    let (cache, warnings) = fit_1d(&[1.0, 2.0], &samples);
    assert_eq!(warnings.len(), 2);
    assert!(warnings.iter().all(|w| w.kind() == OutlierKind::NonFinite));

    let result = cache.eval(&at(&[1.5]));
    assert_eq!(result.m.time_ms, F(0.0));
    assert_eq!(result.m.flops, F(0.0));
    assert!(result.coverage.contains(CoverageFlags::no_coverage()));
}

#[test]
fn non_monotonic_time_flags_monotonicity_break() {
    let (_cache, warnings) = fit_1d(
        &[1.0, 2.0, 3.0],
        &[finite_sample(1.0), finite_sample(0.5), finite_sample(2.0)],
    );
    assert!(warnings.iter().any(|w| w.kind() == OutlierKind::MonotonicityBreak));
}

#[test]
fn eval_on_empty_cache_is_zero() {
    let mut nan = finite_sample(0.0);
    nan.time_ms = D(f64::NAN);
    let (cache, _) = fit_1d(&[1.0, 2.0], &[nan, nan]);
    let leaf = cache.eval(&at(&[1.5]));
    assert_eq!(leaf.m.time_ms, F(0.0));
    assert!(leaf.coverage.contains(CoverageFlags::no_coverage()));
}

#[test]
fn linear_1d_nan_coordinate_returns_no_coverage_zero() {
    let (cache, _) = fit_1d(&[1.0, 2.0], &[finite_sample(1.0), finite_sample(3.0)]);
    let leaf = cache.eval(&at(&[f64::NAN]));
    assert_eq!(leaf.m.time_ms, F(0.0));
    assert!(leaf.coverage.contains(CoverageFlags::no_coverage()));
}

#[test]
fn small_time_dip_within_tolerance_is_not_flagged() {
    let (_cache, warnings) = fit_1d(&[1.0, 2.0], &[finite_sample(1.0), finite_sample(0.95)]);
    assert!(warnings.iter().all(|w| w.kind() != OutlierKind::MonotonicityBreak));
}

/// The bilinear blend of the cells around a point, written over optional cells.
fn interpolate_oracle(
    xs0: &Vec<F>,
    xs1: &Vec<F>,
    cells: &[Option<Metrics4<F>>],
    x0: F,
    x1: F,
) -> (Metrics4<F>, bool) {
    let at0 = locate(xs0, x0);
    let at1 = locate(xs1, x1);
    let (i0, i1, t0) = (at0.low, at0.high, at0.t.0);
    let (j0, j1, t1) = (at1.low, at1.high, at1.t.0);
    let c = xs1.len();
    let get = |i: usize, j: usize| cells[i * c + j];
    let corners = [
        (i0, j0, get(i0, j0), (1.0 - t0) * (1.0 - t1)),
        (i0, j1, get(i0, j1), (1.0 - t0) * t1),
        (i1, j0, get(i1, j0), t0 * (1.0 - t1)),
        (i1, j1, get(i1, j1), t0 * t1),
    ];
    let meaningful_drop = corners
        .iter()
        .any(|(_, _, cell, weight)| cell.is_none() && weight.abs() > f32::EPSILON);
    if !meaningful_drop {
        let mut acc = Metrics4::zero();
        for &(_, _, cell, weight) in &corners {
            if let Some(cell) = cell {
                acc.add_scaled(cell, F(weight));
            }
        }
        return (acc, at0.outside || at1.outside);
    }
    let mut acc = Metrics4::zero();
    let mut weight_sum = 0.0;
    for &(_, _, cell, weight) in &corners {
        if let Some(cell) = cell {
            let weight = weight.max(0.0);
            acc.add_scaled(cell, F(weight));
            weight_sum += weight;
        }
    }
    if weight_sum > f32::EPSILON {
        acc.scale(F(1.0 / weight_sum));
        return (acc, true);
    }
    let normalized_distance = |axis: &[F], lo: usize, hi: usize, x: F, idx: usize| {
        let width = (axis[hi].0 - axis[lo].0).abs();
        if width <= f32::EPSILON {
            0.0
        } else {
            ((x.0 - axis[idx].0) / width).abs()
        }
    };
    let nearest = corners
        .iter()
        .filter_map(|&(i, j, cell, _)| {
            cell.map(|cell| {
                let d0 = normalized_distance(xs0, i0, i1, x0, i);
                let d1 = normalized_distance(xs1, j0, j1, x1, j);
                (cell, d0 * d0 + d1 * d1)
            })
        })
        .min_by(|lhs, rhs| lhs.1.total_cmp(&rhs.1))
        .map(|(cell, _)| cell)
        .unwrap_or(Metrics4::zero());
    (nearest, true)
}

fn probes(xs: &[F]) -> Vec<F> {
    let last = xs.len() - 1;
    let mut out = vec![F(xs[0].0 - 50.0), F(xs[last].0 + 50.0)];
    for w in xs.windows(2) {
        out.push(w[0]);
        out.push(F(0.5 * (w[0].0 + w[1].0)));
    }
    out.push(xs[last]);
    out
}

fn assert_matches_oracle(axis0: Vec<f64>, axis1: Vec<f64>, drops: &[(usize, usize)]) {
    let (r, c) = (axis0.len(), axis1.len());
    let samples: Vec<KernelMetrics<D>> = (0..r)
        .flat_map(|i| (0..c).map(move |j| (i, j)))
        .map(|(i, j)| {
            if drops.contains(&(i, j)) {
                nan_sample()
            } else {
                sample(1.0 + i as f64 * 2.0 + j as f64 * 3.0 + (i * j) as f64 * 0.1)
            }
        })
        .collect();
    let (cache, _warnings) = fit_2d(&axis0, &axis1, &samples);
    let cells = kept(&samples);
    let (xs0, xs1) = (at(&axis0), at(&axis1));

    for &x0 in &probes(&xs0) {
        for &x1 in &probes(&xs1) {
            let (got_m, got_ex) = cache.interpolate_cell(x0, x1);
            let (want_m, want_ex) = interpolate_oracle(&xs0, &xs1, &cells, x0, x1);
            assert_eq!(got_ex, want_ex, "flag diverges at ({x0:?},{x1:?}) drops={drops:?}");
            assert_eq!(
                got_m.time_ms, want_m.time_ms,
                "time diverges at ({x0:?},{x1:?}) drops={drops:?}: {got_m:?} vs {want_m:?}"
            );
            assert_eq!(got_m.flops, want_m.flops);
            assert_eq!(got_m.bytes, want_m.bytes);
            assert_eq!(got_m.energy_j, want_m.energy_j);
        }
    }
}

#[test]
fn dense_interpolate_matches_option_oracle_all_finite() {
    assert_matches_oracle(
        whole(Axis::chain(Axis::values(vec![0]), &Axis::pow2(7, 15))),
        whole(Axis::pow2(7, 15)),
        &[],
    );
    assert_matches_oracle(whole(Axis::pow2(0, 8)), whole(Axis::pow2(5, 22)), &[]);
    assert_matches_oracle(whole(token_axis()), whole(token_axis()), &[]);
    assert_matches_oracle(vec![1.0, 2.0], vec![10.0, 20.0], &[]);
    assert_matches_oracle(
        whole(Axis::arithmetic(0, 512, 128)),
        whole(Axis::arithmetic(0, 384, 128)),
        &[],
    );
}

#[test]
fn dense_interpolate_matches_option_oracle_with_drops() {
    assert_matches_oracle(whole(Axis::pow2(0, 4)), whole(Axis::pow2(0, 4)), &[(2, 2)]);
    assert_matches_oracle(whole(Axis::pow2(0, 4)), whole(Axis::pow2(0, 4)), &[(0, 0), (4, 4)]);
    assert_matches_oracle(
        whole(Axis::arithmetic(0, 512, 128)),
        whole(Axis::arithmetic(0, 384, 128)),
        &[(1, 1), (1, 2), (2, 1)],
    );
    assert_matches_oracle(
        whole(Axis::arithmetic(0, 384, 128)),
        whole(Axis::arithmetic(0, 384, 128)),
        &[(1, 0), (1, 1), (1, 2), (1, 3)],
    );
}

const ROWS: [f64; 2] = [1.0, 2.0];
const COLUMNS: [f64; 2] = [10.0, 20.0];

/// Times of the two-by-two grid: (1,10)=1, (1,20)=2, (2,10)=3, (2,20)=4.
fn grid_2x2() -> Vec<KernelMetrics<D>> {
    vec![sample(1.0), sample(2.0), sample(3.0), sample(4.0)]
}

#[test]
fn bilinear_interpolates_grid_center() {
    let (cache, warnings) = fit_2d(&ROWS, &COLUMNS, &grid_2x2());
    assert!(warnings.is_empty());

    let center = cache.eval(&at(&[1.5, 15.0]));
    assert_eq!(center.m.time_ms, F(2.5));
    assert!(center.coverage.is_empty());

    let corner = cache.eval(&at(&[2.0, 20.0]));
    assert_eq!(corner.m.time_ms, F(4.0));

    let edge = cache.eval(&at(&[1.0, 15.0]));
    assert_eq!(edge.m.time_ms, F(1.5));
}

#[test]
fn out_of_grid_extrapolates_and_flags() {
    let (cache, _) = fit_2d(&ROWS, &COLUMNS, &grid_2x2());
    let beyond = cache.eval(&at(&[3.0, 10.0]));
    assert_eq!(beyond.m.time_ms, F(5.0));
    assert!(beyond.coverage.contains(CoverageFlags::extrapolated()));
}

#[test]
fn non_finite_sample_is_dropped_and_flagged() {
    let samples = vec![sample(1.0), sample(2.0), sample(3.0), nan_sample()];
    let (cache, warnings) = fit_2d(&ROWS, &COLUMNS, &samples);
    assert_eq!(warnings.len(), 1);
    assert_eq!(warnings[0].kind(), OutlierKind::NonFinite);

    let s10 = cache.eval(&at(&[1.0, 10.0]));
    assert_eq!(s10.m.time_ms, F(1.0));
    assert!(s10.coverage.is_empty());
    let s30 = cache.eval(&at(&[2.0, 10.0]));
    assert_eq!(s30.m.time_ms, F(3.0));
    assert!(s30.coverage.is_empty());

    let leans = cache.eval(&at(&[2.0, 20.0]));
    assert_eq!(leans.m.time_ms, F(2.0));
    assert!(leans.coverage.contains(CoverageFlags::extrapolated()));
}

#[test]
fn extrapolation_past_edge_is_unaffected_by_off_weight_dropped_corner() {
    let samples = vec![sample(1.0), sample(2.0), sample(3.0), nan_sample()];
    let (cache, _) = fit_2d(&ROWS, &COLUMNS, &samples);

    let beyond = cache.eval(&at(&[3.0, 10.0]));
    assert_eq!(beyond.m.time_ms, F(5.0));
    assert!(beyond.coverage.contains(CoverageFlags::extrapolated()));
}

#[test]
fn linear_2d_all_non_finite_samples_make_empty_cache_flagged_no_coverage() {
    let samples = vec![nan_sample(), nan_sample(), nan_sample(), nan_sample()];
    let (cache, warnings) = fit_2d(&ROWS, &COLUMNS, &samples);
    assert_eq!(warnings.len(), 4);
    assert!(warnings.iter().all(|w| w.kind() == OutlierKind::NonFinite));

    let result = cache.eval(&at(&[1.5, 15.0]));
    assert_eq!(result.m.time_ms, F(0.0));
    assert_eq!(result.m.flops, F(0.0));
    assert!(result.coverage.contains(CoverageFlags::no_coverage()));
}

#[test]
fn non_monotonic_time_along_axis_flags_break() {
    let samples = vec![sample(1.0), sample(0.4), sample(2.0), sample(3.0)];
    let (_cache, warnings) = fit_2d(&ROWS, &COLUMNS, &samples);
    assert!(warnings.iter().any(|w| w.kind() == OutlierKind::MonotonicityBreak));
}

#[test]
fn linear_2d_nan_coordinate_returns_no_coverage_zero() {
    let (cache, _) = fit_2d(&ROWS, &COLUMNS, &grid_2x2());
    let result = cache.eval(&at(&[f64::NAN, 15.0]));
    assert_eq!(result.m.time_ms, F(0.0));
    assert!(result.coverage.contains(CoverageFlags::no_coverage()));
}

#[test]
fn unsorted_axis_is_sorted_before_bracketing() {
    let samples = vec![sample(3.0), sample(4.0), sample(1.0), sample(2.0)];
    let (cache, warnings) = fit_2d(&[2.0, 1.0], &COLUMNS, &samples);
    assert!(warnings.iter().all(|w| w.kind() != OutlierKind::MonotonicityBreak));

    assert_eq!(cache.eval(&at(&[1.5, 15.0])).m.time_ms, F(2.5));
    assert_eq!(cache.eval(&at(&[1.0, 10.0])).m.time_ms, F(1.0));
    assert_eq!(cache.eval(&at(&[2.0, 20.0])).m.time_ms, F(4.0));
}

type SyntheticGrid = (Vec<f64>, Vec<KernelMetrics<D>>, fn(f64, f64) -> f64);

/// A sixteen by sixteen grid over `1 + x0/100 + x1 * scale1`.
fn additive_grid(scale1: f32) -> SyntheticGrid {
    let points: Vec<f64> = (1..=16).map(|k| f64::from(k) * 64.0).collect();
    let scale1 = f64::from(scale1);
    let mut samples = Vec::with_capacity(points.len() * points.len());
    for &x0 in &points {
        for &x1 in &points {
            samples.push(sample(1.0 + x0 / 100.0 + x1 * scale1));
        }
    }
    (points, samples, |x0, x1| 1.0 + x0 / 100.0 + x1 / 1000.0)
}

#[test]
fn product_policy_is_the_unchanged_bilinear_surface() {
    let (points, samples, _) = additive_grid(0.001);
    let product = fit_2d_with(&points, &points, &samples, Extrapolation::Product);
    let (default, _) = fit_2d(&points, &points, &samples);
    for &(x0, x1) in &[(300.0, 700.0), (1024.0, 1024.0), (4096.0, 4096.0)] {
        let expected = product.interpolate_cell(F(x0 as f32), F(x1 as f32)).0.time_ms;
        assert_eq!(product.eval(&at(&[x0, x1])).m.time_ms, expected);
        assert_eq!(default.eval(&at(&[x0, x1])).m.time_ms, expected);
    }
}

/// The additive surface with the top corner measured three percent high.
fn additive_grid_with_perturbed_corner() -> SyntheticGrid {
    let points: Vec<f64> = (1..=16).map(|k| f64::from(k) * 64.0).collect();
    let top = *points.last().expect("non-empty axis");
    let truth = |x0: f64, x1: f64| 1.0 + x0 / 100.0 + x1 / 1000.0;
    let mut samples = Vec::with_capacity(points.len() * points.len());
    for &x0 in &points {
        for &x1 in &points {
            let value = truth(x0, x1);
            let value = if x0 == top && x1 == top { value * 1.03 } else { value };
            samples.push(sample(value));
        }
    }
    (points, samples, |x0, x1| 1.0 + x0 / 100.0 + x1 / 1000.0)
}

#[test]
fn product_amplifies_boundary_noise_that_weighted_ignores() {
    let (points, samples, truth) = additive_grid_with_perturbed_corner();
    let weighted = fit_2d_with(&points, &points, &samples, Extrapolation::Weighted);
    let product = fit_2d_with(&points, &points, &samples, Extrapolation::Product);

    let (x0, x1) = (16_384.0, 16_384.0);
    let expected = truth(x0, x1);
    let weighted_ratio = f64::from(weighted.eval(&at(&[x0, x1])).m.time_ms.0) / expected;
    let product_ratio = f64::from(product.eval(&at(&[x0, x1])).m.time_ms.0) / expected;
    assert!((weighted_ratio - 1.0).abs() < 0.02, "got {weighted_ratio}x");
    assert!(product_ratio > 50.0, "got {product_ratio}x");
    assert!(weighted.eval(&at(&[x0, x1])).coverage.contains(CoverageFlags::extrapolated()));

    let single_axis =
        f64::from(product.eval(&at(&[x0, 1024.0])).m.time_ms.0) / truth(x0, 1024.0);
    assert!(single_axis < 2.0, "got {single_axis}x");
}

#[test]
fn weighted_policy_adds_the_two_overshoots_instead_of_multiplying_them() {
    let (points, samples, _) = additive_grid(0.001);
    let cache = fit_2d_with(&points, &points, &samples, Extrapolation::Weighted);
    let top = 1024.0;
    let time = |x0: f64, x1: f64| f64::from(cache.eval(&at(&[x0, x1])).m.time_ms.0);
    let boundary = time(top, top);
    let one_axis = time(top + 4096.0, top) - boundary;
    let other_axis = time(top, top + 4096.0) - boundary;
    let both = time(top + 4096.0, top + 4096.0) - boundary;
    assert!(
        (both - (one_axis + other_axis)).abs() < 1e-3,
        "two overshoots must add ({one_axis} + {other_axis}), got {both}"
    );
}

#[test]
fn weighted_policy_gives_a_cost_free_axis_no_slope() {
    let (points, samples, _) = additive_grid(0.0);
    let cache = fit_2d_with(&points, &points, &samples, Extrapolation::Weighted);
    let top = 1024.0;
    let boundary = cache.eval(&at(&[top, top])).m.time_ms;
    assert_eq!(cache.eval(&at(&[top, 65_536.0])).m.time_ms, boundary);
}

#[test]
fn clamp_policy_holds_the_boundary_and_still_flags() {
    let (points, samples, _) = additive_grid(0.001);
    let cache = fit_2d_with(&points, &points, &samples, Extrapolation::Clamp);
    let boundary = cache.eval(&at(&[1024.0, 1024.0]));
    let beyond = cache.eval(&at(&[65_536.0, 65_536.0]));
    assert_eq!(beyond.m.time_ms, boundary.m.time_ms);
    assert!(beyond.coverage.contains(CoverageFlags::extrapolated()));
    assert!(boundary.coverage.is_empty());
}

#[test]
fn weighted_policy_falls_back_to_the_boundary_when_the_band_cannot_be_fitted() {
    let samples = (1..=8).map(|k| sample(f64::from(k))).collect::<Vec<_>>();
    let cache = fit_2d_with(
        &[1.0, 100.0],
        &[10.0, 20.0, 30.0, 40.0],
        &samples,
        Extrapolation::Weighted,
    );
    assert!(!cache.has_slopes());
    let beyond = cache.eval(&at(&[1000.0, 400.0]));
    assert_eq!(beyond.m.time_ms, cache.eval(&at(&[100.0, 40.0])).m.time_ms);
    assert!(beyond.coverage.contains(CoverageFlags::extrapolated()));
}

#[test]
fn policies_agree_on_the_grid() {
    let (points, samples, _) = additive_grid_with_perturbed_corner();
    let (plain, _) = fit_2d(&points, &points, &samples);
    for policy in [Extrapolation::Weighted, Extrapolation::Clamp] {
        let cache = fit_2d_with(&points, &points, &samples, policy);
        for &(x0, x1) in &[(64.0, 64.0), (100.0, 900.0), (1024.0, 1024.0)] {
            assert_eq!(
                cache.eval(&at(&[x0, x1])).m.time_ms,
                plain.eval(&at(&[x0, x1])).m.time_ms
            );
        }
    }
}

#[test]
fn policies_agree_inside_on_dropped_corners() {
    let samples = vec![sample(1.0), sample(2.0), sample(3.0), nan_sample()];
    let (plain, _) = fit_2d(&ROWS, &COLUMNS, &samples);
    for policy in [Extrapolation::Product, Extrapolation::Weighted, Extrapolation::Clamp] {
        let cache = fit_2d_with(&ROWS, &COLUMNS, &samples, policy);
        for &(x0, x1) in &[(1.0, 10.0), (1.5, 15.0), (2.0, 15.0), (2.0, 20.0)] {
            let expected = plain.eval(&at(&[x0, x1]));
            let found = cache.eval(&at(&[x0, x1]));
            assert_eq!(found.m.time_ms, expected.m.time_ms);
            assert_eq!(found.m.flops, expected.m.flops);
            assert_eq!(found.m.bytes, expected.m.bytes);
            assert_eq!(found.m.energy_j, expected.m.energy_j);
            assert_eq!(
                found.coverage.contains(CoverageFlags::extrapolated()),
                expected.coverage.contains(CoverageFlags::extrapolated())
            );
        }
        let exact = cache.eval(&at(&[1.0, 10.0]));
        assert_eq!(exact.m.time_ms, F(1.0));
        assert!(exact.coverage.is_empty());
        let leans = cache.eval(&at(&[2.0, 20.0]));
        assert_eq!(leans.m.time_ms, F(2.0));
        assert!(leans.coverage.contains(CoverageFlags::extrapolated()));
    }
}

#[test]
fn fixed_point_overshoots_add_up() {
    let number = |value: i64| Fixed { steps: value << 20 };
    let points: Vec<Fixed> = vec![number(1), number(2), number(4)];
    let mut samples = Vec::new();
    for x0 in [1, 2, 4] {
        for x1 in [1, 2, 4] {
            samples.push(Some(Metrics4 {
                time_ms: number(2 * x0 + 3 * x1),
                flops: number(x0),
                bytes: number(5),
                energy_j: number(x1),
            }));
        }
    }
    let (cache, _) =
        Cache2DLinear::from_samples_with(&points, &points, &samples, Extrapolation::Weighted);
    assert!(cache.has_slopes());
    let eval = |x0: i64, x1: i64| cache.eval(&vec![number(x0), number(x1)]).m;
    let corner = eval(4, 4);
    assert_eq!(corner.time_ms, number(20));
    assert_eq!(eval(14, 4).time_ms, number(40));
    assert_eq!(eval(4, 24).time_ms, number(80));
    assert_eq!(eval(14, 24).time_ms, number(100));
    assert_eq!(eval(14, 24).flops, number(14));
    assert_eq!(eval(14, 24).bytes, number(5));
    assert_eq!(eval(14, 24).energy_j, number(24));
    let gain = |m: Metrics4<Fixed>| m.time_ms.steps - corner.time_ms.steps;
    assert_eq!(gain(eval(14, 24)), gain(eval(14, 4)) + gain(eval(4, 24)));
}

fn cube_sample(time_ms: f64) -> KernelMetrics<D> {
    sample_with_energy(time_ms, time_ms * 2.0)
}

fn cube_nan() -> KernelMetrics<D> {
    let mut value = cube_sample(1.0);
    value.time_ms = D(f64::NAN);
    value
}

const SIDE: [f64; 2] = [0.0, 1.0];

/// Every cell of a grid in row-major order.
fn expand(axes: [&[f64]; 3], f: impl Fn([f64; 3]) -> f64) -> Vec<KernelMetrics<D>> {
    let mut samples = Vec::new();
    for &x0 in axes[0] {
        for &x1 in axes[1] {
            for &x2 in axes[2] {
                samples.push(cube_sample(f([x0, x1, x2])));
            }
        }
    }
    samples
}

fn cube_samples(f: impl Fn([f64; 3]) -> f64) -> Vec<KernelMetrics<D>> {
    expand([&SIDE, &SIDE, &SIDE], f)
}

fn fit_3d(
    axes: [&[f64]; 3],
    samples: &[KernelMetrics<D>],
) -> (Cache3DLinear<F>, Vec<FitWarning>) {
    Cache3DLinear::from_samples(&axis(axes[0]), &axis(axes[1]), &axis(axes[2]), &kept(samples))
}

fn fit_cube(samples: &[KernelMetrics<D>]) -> (Cache3DLinear<F>, Vec<FitWarning>) {
    fit_3d([&SIDE, &SIDE, &SIDE], samples)
}

#[test]
fn exact_points_center_and_trilinear_surface_interpolate_all_metrics() {
    let samples =
        cube_samples(|x| 2.0 + x[0] + 2.0 * x[1] + 3.0 * x[2] + 5.0 * x[0] * x[1] * x[2]);
    let (cache, _) = fit_cube(&samples);
    assert_eq!(cache.eval(&at(&[0.0; 3])).m.time_ms, F(2.0));
    assert_eq!(cache.eval(&at(&[1.0; 3])).m.time_ms, F(13.0));
    let center = cache.eval(&at(&[0.5; 3]));
    assert!((center.m.time_ms.0 - 5.625).abs() < 1e-5);
    assert!((center.m.flops.0 - 5.625e9).abs() < 4096.0);
    assert!((center.m.bytes.0 - 11.25e6).abs() < 4.0);
    assert!((center.m.energy_j.0 - 11.25).abs() < 1e-5);
    assert_eq!(center.coverage, CoverageFlags::empty());
}

#[test]
fn all_eight_corner_weights_are_used() {
    for active in 0..8 {
        let samples = (0..8)
            .map(|index| cube_sample(if index == active { 8.0 } else { 0.0 }))
            .collect::<Vec<_>>();
        let (cache, _) = fit_cube(&samples);
        assert!((cache.eval(&at(&[0.5; 3])).m.time_ms.0 - 1.0).abs() < 1e-6);
    }
}

#[test]
fn independently_unsorted_axes_permute_cells_correctly() {
    let axes: [&[f64]; 3] = [&[10.0, 0.0], &[20.0, 0.0], &[30.0, 0.0]];
    let samples = expand(axes, |x| x.iter().sum());
    let (cache, _) = fit_3d(axes, &samples);
    assert_eq!(cache.eval(&at(&[0.0, 0.0, 0.0])).m.time_ms, F(0.0));
    assert_eq!(cache.eval(&at(&[10.0, 20.0, 30.0])).m.time_ms, F(60.0));
    assert_eq!(cache.eval(&at(&[5.0, 10.0, 15.0])).m.time_ms, F(30.0));
}

#[test]
fn faces_edges_singletons_and_each_axis_extrapolation_are_supported() {
    let samples = cube_samples(|x| x.iter().sum::<f64>() + 1.0);
    let (cache, _) = fit_cube(&samples);
    assert_eq!(cache.eval(&at(&[0.0, 0.5, 0.5])).m.time_ms, F(2.0));
    assert_eq!(cache.eval(&at(&[0.0, 0.0, 0.5])).m.time_ms, F(1.5));
    for axis in 0..3 {
        let mut query = [0.5; 3];
        query[axis] = 1.5;
        assert_eq!(cache.eval(&at(&query)).coverage, CoverageFlags::extrapolated());
    }
    assert_eq!(
        cache.eval(&at(&[-1.0, 2.0, 0.5])).coverage,
        CoverageFlags::extrapolated()
    );

    let (cache, _) = fit_3d([&[2.0], &[3.0], &[4.0]], &[cube_sample(7.0)]);
    assert_eq!(cache.eval(&at(&[2.0, 3.0, 4.0])).m.time_ms, F(7.0));
    assert_eq!(
        cache.eval(&at(&[3.0, 3.0, 4.0])).coverage,
        CoverageFlags::extrapolated()
    );
}

#[test]
fn dropped_corner_zero_weight_and_convex_renormalization_match_safe_policy() {
    let mut samples = (0..8).map(|index| cube_sample(f64::from(index))).collect::<Vec<_>>();
    samples[7] = cube_nan();
    let (cache, warnings) = fit_cube(&samples);
    let exact = cache.eval(&at(&[0.0; 3]));
    assert_eq!(exact.coverage, CoverageFlags::empty());
    assert_eq!(exact.m.time_ms, F(0.0));
    let center = cache.eval(&at(&[0.5; 3]));
    assert_eq!(center.coverage, CoverageFlags::extrapolated());
    assert!((center.m.time_ms.0 - 3.0).abs() < 1e-5);
    assert!(warnings.iter().any(|warning| warning.kind() == OutlierKind::NonFinite));
}

#[test]
fn multiple_drops_dropped_face_and_nearest_fallback_are_deterministic() {
    let mut samples =
        (0..8).map(|index| cube_sample(f64::from(index) + 1.0)).collect::<Vec<_>>();
    for sample in &mut samples[..4] {
        *sample = cube_nan();
    }
    let (cache, _) = fit_cube(&samples);
    let center = cache.eval(&at(&[0.5; 3]));
    assert_eq!(center.coverage, CoverageFlags::extrapolated());
    assert!(center.m.time_ms.0 >= 5.0 && center.m.time_ms.0 <= 8.0);
    let dropped_corner = cache.eval(&at(&[0.0; 3]));
    assert_eq!(dropped_corner.coverage, CoverageFlags::extrapolated());
    assert_eq!(dropped_corner.m.time_ms, F(5.0));
}

#[test]
fn all_invalid_and_nan_queries_return_no_coverage() {
    let (cache, _) = fit_cube(&vec![cube_nan(); 8]);
    let miss = cache.eval(&at(&[0.5; 3]));
    assert_eq!(miss.coverage, CoverageFlags::no_coverage());
    assert_eq!(miss.m.time_ms, F(0.0));

    let samples = cube_samples(|_| 1.0);
    let (cache, _) = fit_cube(&samples);
    let miss = cache.eval(&at(&[f64::NAN, 0.0, 0.0]));
    assert_eq!(miss.coverage, CoverageFlags::no_coverage());
    assert_eq!(miss.m.time_ms, F(0.0));
}

#[test]
fn output_clamps_nonnegative_and_peak_rates_ignore_drops() {
    let mut samples = vec![cube_sample(2.0); 8];
    samples[0] = cube_sample(1.0);
    samples[7] = cube_nan();
    let (cache, _) = fit_cube(&samples);
    let extrapolated = cache.eval(&at(&[-10.0, 0.0, 0.0]));
    assert_eq!(extrapolated.m.time_ms, F(0.0));
    assert!(extrapolated.m.flops.0 >= 0.0);
    assert!(cache.peak_rates().tflops.0 > 0.0);
    assert!(cache.peak_rates().gbps.0 > 0.0);
}

#[test]
fn monotonicity_scans_all_directions_and_dispatch_preserves_existing_variants() {
    for axis in 0..3 {
        let samples = cube_samples(|coords| if coords[axis] == 0.0 { 10.0 } else { 1.0 });
        let (_, warnings) = fit_cube(&samples);
        assert!(warnings.iter().any(|warning| {
            warning.kind() == OutlierKind::MonotonicityBreak
                && matches!(warning, FitWarning::Break { axis: found, .. } if *found == axis)
        }));
    }

    let samples = cube_samples(|x| x.iter().sum::<f64>() + 1.0);
    let axes = vec![axis(&SIDE), axis(&SIDE), axis(&SIDE)];
    let (cache, _) = build_cache("test", CacheKind::Cache3DLinear, &axes, &kept(&samples)).unwrap();
    assert_eq!(cache.eval(&at(&[0.5; 3])).coverage, CoverageFlags::empty());

    for (kind, axes, samples) in [
        (CacheKind::Cache1DLinear, vec![axis(&[1.0, 2.0])], vec![sample(1.0), sample(2.0)]),
        (CacheKind::Cache1DDirect, vec![axis(&[1.0, 2.0])], vec![sample(1.0), sample(2.0)]),
        (
            CacheKind::Cache2DLinear(Extrapolation::Clamp),
            vec![axis(&[1.0]), axis(&[1.0])],
            vec![sample(1.0)],
        ),
    ] {
        assert!(build_cache("test", kind, &axes, &kept(&samples)).is_ok());
    }
}

#[test]
fn unimplemented_tables_are_refused_by_name() {
    for (kind, name) in
        [(CacheKind::Cache2DLog, "Cache2DLog"), (CacheKind::Cache2DCliff, "Cache2DCliff")]
    {
        match build_cache::<F>("test", kind, &Vec::new(), &Vec::new()) {
            Err(BuildError::FitFailed { kind, reason }) => {
                assert_eq!(kind, "test");
                assert_eq!(reason, format!("cache variant {name} is not yet implemented"));
            }
            other => panic!("unexpected outcome {:?}", other.is_ok()),
        }
    }
}

fn cell(time_ms: f32, flops: f32, bytes: f32) -> Option<Metrics4<F>> {
    Some(Metrics4 { time_ms: F(time_ms), flops: F(flops), bytes: F(bytes), energy_j: F(0.0) })
}

#[test]
fn grid_peaks_include_maximum_arithmetic_intensity() {
    let (cells, _) =
        Cells::gather(&vec![cell(2.0, 400.0, 20.0), cell(1.0, 300.0, 10.0)], &vec![0, 1]);
    let peak = peak_over_cells(&cells);

    assert_eq!(peak.max_arithmetic_intensity_flops_per_byte, D(30.0));
}

#[test]
fn peaks_merge_rate_by_rate() {
    let a = PeakRates { tflops: D(1.0), gbps: D(5.0), max_arithmetic_intensity_flops_per_byte: D(2.0) };
    let b = PeakRates { tflops: D(3.0), gbps: D(4.0), max_arithmetic_intensity_flops_per_byte: D(0.5) };
    let merged = a.merge(b);
    assert_eq!(merged.tflops, D(3.0));
    assert_eq!(merged.gbps, D(5.0));
    assert_eq!(merged.max_arithmetic_intensity_flops_per_byte, D(2.0));
    let nothing: PeakRates<D> = PeakRates::zero();
    assert_eq!(nothing.merge(a).tflops, D(1.0));
}

#[test]
fn equal_points_keep_their_order() {
    assert_eq!(sort_order(&axis(&[3.0, 1.0, 3.0, 2.0, 1.0])), vec![1, 4, 3, 0, 2]);
}

#[test]
fn cube_indices_go_there_and_back() {
    let dims = (2, 3, 4);
    for index in 0..24 {
        assert_eq!(flat_index(dims, decode_index(dims, index)), index);
    }
    assert_eq!(flat_index(dims, (1, 2, 3)), 23);
    assert_eq!(decode_index(dims, 13), (1, 0, 1));
}

#[test]
fn located_points_bracket_the_axis() {
    let xs = at(&[1.0, 2.0, 4.0]);
    let inside = locate(&xs, F(3.0));
    assert_eq!((inside.low, inside.high, inside.t, inside.outside), (1, 2, F(0.5), false));
    let left = locate(&xs, F(0.0));
    assert_eq!((left.low, left.high, left.t, left.outside), (0, 1, F(-1.0), true));
    let right = locate(&xs, F(6.0));
    assert_eq!((right.low, right.high, right.t, right.outside), (1, 2, F(2.0), true));
    let alone = locate(&at(&[5.0]), F(6.0));
    assert_eq!((alone.low, alone.high, alone.t, alone.outside), (0, 0, F(0.0), true));
}

/// The first whole number whose successor single precision cannot tell from it.
const WIDE: f64 = 16_777_216.0;

#[test]
fn grids_are_sorted_before_their_points_are_narrowed() {
    let samples = [sample(5.0), sample(3.0)];
    let (table, _) = fit_2d(&[WIDE + 1.0, WIDE], &[1.0], &samples);
    assert_eq!(table.eval(&at(&[WIDE, 1.0])).m.time_ms, F(3.0));
    let (table, _) = fit_2d(&[1.0], &[WIDE + 1.0, WIDE], &samples);
    assert_eq!(table.eval(&at(&[1.0, WIDE])).m.time_ms, F(3.0));
    let (table, _) = fit_3d([&[1.0], &[WIDE + 1.0, WIDE], &[1.0]], &samples);
    assert_eq!(table.eval(&at(&[1.0, WIDE, 1.0])).m.time_ms, F(3.0));
}

#[test]
fn a_line_is_narrowed_before_its_points_are_sorted() {
    let (table, warnings) = fit_1d(&[WIDE + 1.0, WIDE], &[sample(5.0), sample(3.0)]);
    assert_eq!(table.eval(&at(&[WIDE])).m.time_ms, F(5.0));
    assert_eq!(warnings.len(), 1);
    assert_eq!(warnings[0].kind(), OutlierKind::MonotonicityBreak);
}

#[test]
fn steps_are_taken_before_they_are_narrowed() {
    let points = [WIDE, WIDE + 1.0, WIDE + 2.0];
    assert!(uniform_axis::<F>(&axis(&points)));
    let (table, _) = fit_direct(&points, &[sample(1.0), sample(2.0), sample(3.0)]);
    assert_eq!(table.eval(&at(&[WIDE])).m.time_ms, F(1.0));
    assert_eq!(table.eval(&at(&[WIDE + 2.0])).m.time_ms, F(3.0));
}

#[test]
fn zeros_of_either_sign_are_sorted_apart() {
    assert_eq!(sort_order(&axis(&[0.0, -0.0, -1.0])), vec![2, 1, 0]);
    let (table, _) = fit_2d(&[0.0, -0.0], &[1.0], &[sample(5.0), sample(3.0)]);
    assert_eq!(table.eval(&at(&[0.0, 1.0])).m.time_ms, F(3.0));
    let (table, _) = fit_1d(&[0.0, -0.0], &[sample(5.0), sample(3.0)]);
    assert_eq!(table.eval(&at(&[0.0])).m.time_ms, F(3.0));
}

#[test]
fn tables_also_hold_fixed_point_numbers() {
    let number = |value: i64| Fixed { steps: value << 20 };
    let sample = |time: i64| {
        Some(Metrics4 {
            time_ms: number(time),
            flops: number(0),
            bytes: number(0),
            energy_j: number(0),
        })
    };
    let points = vec![number(1), number(2), number(4)];
    let (cache, warnings) =
        Cache1DLinear::from_samples(&points, &vec![sample(10), sample(20), sample(60)]);
    assert!(warnings.is_empty());
    assert_eq!(cache.eval(&vec![number(3)]).m.time_ms, number(40));
    assert_eq!(cache.eval(&vec![number(2)]).m.time_ms, number(20));
    assert_eq!(Fixed::from_ratio(7, 2).steps, 7 << 19);
    assert_eq!(<Fixed as Wide>::as_count(Fixed { steps: (9 << 20) + 5 }), 9);
    assert_eq!(<Fixed as Scalar>::from_count(3), number(3));
}

#[test]
fn tables_tell_where_their_cells_stand() {
    let times = [4.0, 3.0, 2.0, 1.0, 6.0, 5.0];
    let samples: Vec<KernelMetrics<D>> = times.iter().map(|&time| sample(time)).collect();
    let (plane, _) = fit_2d(&[20.0, 10.0], &[3.0, 1.0, 2.0], &samples);
    assert_eq!(plane.cell(0), Some((vec![F(10.0), F(1.0)], Some(F(6.0)))));
    assert_eq!(plane.cell(5), Some((vec![F(20.0), F(3.0)], Some(F(4.0)))));
    assert_eq!(plane.cell(6), None);

    let (line, _) =
        Cache1DDirect::from_samples(&axis(&[8.0, 10.0]), &kept(&[sample(1.0), nan_sample()]));
    assert_eq!(line.cell(0), Some((vec![F(8.0)], Some(F(1.0)))));
    assert_eq!(line.cell(1), Some((vec![F(10.0)], None)));
    assert_eq!(line.cell(2), None);

    let block: Vec<KernelMetrics<D>> = (0..8).map(|i| sample(f64::from(i))).collect();
    let (table, _) = Cache3DLinear::from_samples(
        &axis(&[1.0, 2.0]),
        &axis(&[3.0, 4.0]),
        &axis(&[5.0, 6.0]),
        &kept(&block),
    );
    assert_eq!(table.cell(5), Some((vec![F(2.0), F(3.0), F(6.0)], Some(F(5.0)))));
    assert_eq!(table.cell(8), None);
}
