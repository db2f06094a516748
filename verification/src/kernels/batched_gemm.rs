//! Batches of equally shaped matrix products.
//!
//! Each configuration fixes the number of products and their inner and output widths;
//! the number of rows per product is swept.

use crate::bridge::payload::{
    dtype_text, number_value, text_value, ArgsPayload, DType, KernelKind, WireValue,
};
use crate::cache::CacheKind;
use crate::dims::Dim;
use crate::kernels::config::{
    dimension_of, field, fields_view, names_of, precision_of, text_of, ConfigField, ConfigTerm,
    KernelConfig,
};
use crate::kernels::engine::{
    carries, number_at, whole_units, CellPayloads, KernelSpec, SweepCoords,
};
use crate::sweep::{cell_on_axes, chained, pow2_points, whole, Axis, Ratio, SweepGrid};
use vstd::prelude::*;

verus! {

#[derive(Clone, Debug, PartialEq, Eq, Hash)]
pub struct BatchedGemmKernelConfig {
    pub backends: Vec<&'static str>,
    pub gpu_name: String,
    pub num_batches: Dim,
    pub n: Dim,
    pub k: Dim,
    pub dtype: DType,
}

impl KernelConfig for BatchedGemmKernelConfig {
    const BACKENDS_FIELD: &'static str = "BatchedGemmKernelConfig.backends";

    open spec fn candidates(&self) -> Seq<&'static str> {
        self.backends@
    }

    open spec fn gpu(&self) -> Seq<char> {
        self.gpu_name@
    }

    open spec fn compute(&self) -> Option<DType> {
        Some(self.dtype)
    }

    open spec fn kv(&self) -> Option<DType> {
        None
    }

    open spec fn description(&self) -> Seq<(Seq<char>, ConfigTerm)> {
        seq![
            ("backends"@, ConfigTerm::Names(self.backends@)),
            ("gpu_name"@, ConfigTerm::Text(self.gpu_name@)),
            ("num_batches"@, ConfigTerm::Dimension(self.num_batches@)),
            ("n"@, ConfigTerm::Dimension(self.n@)),
            ("k"@, ConfigTerm::Dimension(self.k@)),
            ("dtype"@, ConfigTerm::Precision(self.dtype)),
        ]
    }

    fn backends(&self) -> (r: &Vec<&'static str>) {
        &self.backends
    }

    fn gpu_name(&self) -> (r: &str) {
        self.gpu_name.as_str()
    }

    fn compute_dtype(&self) -> (r: Option<DType>) {
        Some(self.dtype)
    }

    fn kv_dtype(&self) -> (r: Option<DType>) {
        None
    }

    fn describe_config(&self) -> (r: Vec<ConfigField>) {
        let r: Vec<ConfigField> = vec![
            field("backends", names_of(&self.backends)),
            field("gpu_name", text_of(self.gpu_name.as_str())),
            field("num_batches", dimension_of(&self.num_batches)),
            field("n", dimension_of(&self.n)),
            field("k", dimension_of(&self.k)),
            field("dtype", precision_of(self.dtype)),
        ];
        assert(fields_view(r@) =~= self.description());
        r
    }
}

#[derive(Clone, Copy, Debug, PartialEq, Eq, Hash)]
pub struct BatchedGemmKernelInput {
    pub m: u32,
}

impl SweepCoords for BatchedGemmKernelInput {
    open spec fn well_shaped(&self) -> bool {
        true
    }

    open spec fn position(&self) -> Seq<Ratio> {
        seq![whole(self.m as int)]
    }

    open spec fn axis_names() -> Seq<Seq<char>> {
        seq!["m"@]
    }

    fn is_well_shaped(&self) -> (r: bool) {
        true
    }

    fn coords(&self) -> (r: Vec<Ratio>) {
        let r: Vec<Ratio> = vec![Ratio::from_whole(self.m)];
        assert(r@ =~= self.position());
        r
    }

    fn coord_field_names() -> (r: Vec<&'static str>) {
        let r: Vec<&'static str> = vec!["m"];
        assert(r@.map_values(|name: &'static str| name@) =~= Self::axis_names());
        r
    }
}

pub struct BatchedGemmSpec;

impl KernelSpec for BatchedGemmSpec {
    type Config = BatchedGemmKernelConfig;

    type Input = BatchedGemmKernelInput;

    const KIND: KernelKind = "batched_gemm";

    open spec fn admits(config: BatchedGemmKernelConfig) -> bool {
        true
    }

    open spec fn axes(config: BatchedGemmKernelConfig, tokens: Seq<u32>) -> Seq<Seq<u32>> {
        seq![chained(pow2_points(0, 4), tokens)]
    }

    open spec fn units(axes: Seq<Seq<u32>>) -> Seq<u32> {
        whole_units(axes)
    }

    open spec fn table(backend: Seq<char>) -> CacheKind {
        CacheKind::Cache1DLinear
    }

    open spec fn masks() -> bool {
        false
    }

    open spec fn judges(config: BatchedGemmKernelConfig, cell: Seq<u32>) -> bool {
        true
    }

    open spec fn infeasible(config: BatchedGemmKernelConfig, cell: Seq<u32>) -> bool {
        false
    }

    open spec fn table_position(
        config: BatchedGemmKernelConfig,
        input: BatchedGemmKernelInput,
    ) -> Seq<Ratio> {
        input.position()
    }

    open spec fn answers(config: BatchedGemmKernelConfig, input: BatchedGemmKernelInput) -> bool {
        input.well_shaped()
    }

    fn profile_kind() -> (r: KernelKind) {
        Self::KIND
    }

    fn can_sweep(config: &BatchedGemmKernelConfig) -> (r: bool) {
        true
    }

    fn sweep_grid(config: &BatchedGemmKernelConfig, tokens: &Vec<u32>) -> (r: SweepGrid) {
        let a0: Vec<u32> = Axis::chain(Axis::pow2(0, 4), tokens);
        let r = SweepGrid::new(vec![a0]);
        proof {
            assert(r.points() =~= Self::axes(*config, tokens@));
            assert(r.scale() =~= whole_units(r.points()));
        }
        r
    }

    fn cache_kind(backend: &str) -> (r: CacheKind) {
        CacheKind::Cache1DLinear
    }

    fn has_mask() -> (r: bool) {
        false
    }

    fn is_infeasible(config: &BatchedGemmKernelConfig, cell: &Vec<u32>) -> (r: bool) {
        false
    }

    fn can_answer(config: &BatchedGemmKernelConfig, input: &BatchedGemmKernelInput) -> (r: bool) {
        input.is_well_shaped()
    }

    fn cache_coords(
        config: &BatchedGemmKernelConfig,
        input: &BatchedGemmKernelInput,
    ) -> (r: Vec<Ratio>) {
        input.coords()
    }

    proof fn sweep_fits_table(
        config: BatchedGemmKernelConfig,
        tokens: Seq<u32>,
        backend: Seq<char>,
    ) {
    }

    proof fn sweep_is_judged(config: BatchedGemmKernelConfig, tokens: Seq<u32>, index: nat) {
    }

    proof fn queries_fit_table(
        config: BatchedGemmKernelConfig,
        input: BatchedGemmKernelInput,
        backend: Seq<char>,
    ) {
    }
}

impl CellPayloads for BatchedGemmSpec {
    open spec fn covers(config: BatchedGemmKernelConfig, cell: Seq<u32>) -> bool {
        cell.len() == 1
    }

    open spec fn enumerates(config: BatchedGemmKernelConfig) -> bool {
        true
    }

    open spec fn fields(config: BatchedGemmKernelConfig, cell: Seq<u32>, backend: Seq<char>) -> Map<
        Seq<char>,
        WireValue,
    > {
        Map::<Seq<char>, WireValue>::empty()
            .insert("num_batches"@, WireValue::Number(config.num_batches@.fold() as nat))
            .insert("m"@, WireValue::Number(cell[0] as nat))
            .insert("n"@, WireValue::Number(config.n@.fold() as nat))
            .insert("k"@, WireValue::Number(config.k@.fold() as nat))
            .insert("dtype"@, WireValue::Text(dtype_text(config.dtype)))
            .insert("backend"@, WireValue::Text(backend))
    }

    fn can_enumerate(config: &BatchedGemmKernelConfig) -> (r: bool) {
        true
    }

    fn cell_payload(
        config: &BatchedGemmKernelConfig,
        cell: &Vec<u32>,
        backend: &str,
    ) -> (r: ArgsPayload) {
        ArgsPayload::new()
            .with("num_batches", number_value(config.num_batches.get()))
            .with("m", number_value(cell[0]))
            .with("n", number_value(config.n.get()))
            .with("k", number_value(config.k.get()))
            .with("dtype", text_value(config.dtype.as_str()))
            .with("backend", text_value(backend))
    }

    proof fn sweep_is_covered(config: BatchedGemmKernelConfig, tokens: Seq<u32>, index: nat) {
        cell_on_axes(Self::axes(config, tokens), index);
    }

    proof fn fields_name_backend(
        config: BatchedGemmKernelConfig,
        cell: Seq<u32>,
        backend: Seq<char>,
    ) {
    }

    open spec fn describes(
        config: BatchedGemmKernelConfig,
        fields: Map<Seq<char>, WireValue>,
        input: BatchedGemmKernelInput,
    ) -> bool {
        number_at(fields, "m"@) == input.m
    }

    open spec fn occurs(config: BatchedGemmKernelConfig, cell: Seq<u32>) -> bool {
        true
    }

    open spec fn kept_back() -> Set<Seq<char>> {
        set!["backends"@, "gpu_name"@]
    }

    proof fn payload_stands_at_its_cell(
        config: BatchedGemmKernelConfig,
        tokens: Seq<u32>,
        index: nat,
        backend: Seq<char>,
        input: BatchedGemmKernelInput,
    ) {
        cell_on_axes(Self::axes(config, tokens), index);
        reveal_strlit("m");
        reveal_strlit("n");
        reveal_strlit("k");
        reveal_strlit("dtype");
        reveal_strlit("backend");
        assert("m"@.len() == 1 && "m"@[0] == 'm');
        assert("n"@.len() == 1 && "n"@[0] == 'n');
        assert("k"@.len() == 1 && "k"@[0] == 'k');
        assert("dtype"@.len() == 5);
        assert("backend"@.len() == 7);
    }

    proof fn payload_carries_config(
        config: BatchedGemmKernelConfig,
        cell: Seq<u32>,
        backend: Seq<char>,
        i: int,
    ) {
        reveal_strlit("num_batches");
        reveal_strlit("m");
        reveal_strlit("n");
        reveal_strlit("k");
        reveal_strlit("dtype");
        reveal_strlit("backend");
        assert("num_batches"@.len() == 11);
        assert("m"@.len() == 1 && "m"@[0] == 'm');
        assert("n"@.len() == 1 && "n"@[0] == 'n');
        assert("k"@.len() == 1 && "k"@[0] == 'k');
        assert("dtype"@.len() == 5);
        assert("backend"@.len() == 7);
        let fields = Self::fields(config, cell, backend);
        let terms = config.description();
        assert(carries(fields, terms[2]));
        assert(carries(fields, terms[3]));
        assert(carries(fields, terms[4]));
        assert(carries(fields, terms[5]));
    }

    proof fn described_alike_is_profiled_alike(
        a: BatchedGemmKernelConfig,
        b: BatchedGemmKernelConfig,
        tokens: Seq<u32>,
        cell: Seq<u32>,
        backend: Seq<char>,
    ) {
        let (x, y) = (a.description(), b.description());
        assert(x[0] == y[0]);
        assert(x[1] == y[1]);
        assert(x[2] == y[2]);
        assert(x[3] == y[3]);
        assert(x[4] == y[4]);
        assert(x[5] == y[5]);
    }
}

/// The kernel computes in the precision that is described as `dtype` and names no precision
/// that it keeps its cache in.
pub proof fn precisions_are_described(config: BatchedGemmKernelConfig)
    ensures
        config.compute() matches Some(precision) && config.description()[5] == (
            "dtype"@,
            ConfigTerm::Precision(precision),
        ),
        config.kv() is None,
{
}

} // verus!
