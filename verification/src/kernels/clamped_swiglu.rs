//! Clamped SwiGLU activation of routed expert rows.

use crate::bridge::payload::{
    dtype_text, number_value, text_value, ArgsPayload, DType, KernelKind, WireValue,
};
use crate::cache::CacheKind;
use crate::dims::Dim;
use crate::kernels::config::{
    dimension_of, field, fields_view, names_of, precision_of, text_of, ConfigField, ConfigTerm,
    KernelConfig,
};
use crate::kernels::engine::{
    carries, number_at, whole_units, CellPayloads, KernelSpec, SweepCoords,
};
use crate::sweep::{cell_on_axes, chained, pow2_points, whole, Axis, Ratio, SweepGrid};
use vstd::prelude::*;

verus! {

#[derive(Clone, Debug, PartialEq, Eq, Hash)]
pub struct ClampedSwigluKernelConfig {
    pub backends: Vec<&'static str>,
    pub gpu_name: String,
    pub hidden_dim: Dim,
    pub dtype: DType,
}

impl KernelConfig for ClampedSwigluKernelConfig {
    const BACKENDS_FIELD: &'static str = "ClampedSwigluKernelConfig.backends";

    open spec fn candidates(&self) -> Seq<&'static str> {
        self.backends@
    }

    open spec fn gpu(&self) -> Seq<char> {
        self.gpu_name@
    }

    open spec fn compute(&self) -> Option<DType> {
        Some(self.dtype)
    }

    open spec fn kv(&self) -> Option<DType> {
        None
    }

    open spec fn description(&self) -> Seq<(Seq<char>, ConfigTerm)> {
        seq![
            ("backends"@, ConfigTerm::Names(self.backends@)),
            ("gpu_name"@, ConfigTerm::Text(self.gpu_name@)),
            ("hidden_dim"@, ConfigTerm::Dimension(self.hidden_dim@)),
            ("dtype"@, ConfigTerm::Precision(self.dtype)),
        ]
    }

    fn backends(&self) -> (r: &Vec<&'static str>) {
        &self.backends
    }

    fn gpu_name(&self) -> (r: &str) {
        self.gpu_name.as_str()
    }

    fn compute_dtype(&self) -> (r: Option<DType>) {
        Some(self.dtype)
    }

    fn kv_dtype(&self) -> (r: Option<DType>) {
        None
    }

    fn describe_config(&self) -> (r: Vec<ConfigField>) {
        let r: Vec<ConfigField> = vec![
            field("backends", names_of(&self.backends)),
            field("gpu_name", text_of(self.gpu_name.as_str())),
            field("hidden_dim", dimension_of(&self.hidden_dim)),
            field("dtype", precision_of(self.dtype)),
        ];
        assert(fields_view(r@) =~= self.description());
        r
    }
}

#[derive(Clone, Copy, Debug, PartialEq, Eq, Hash)]
pub struct ClampedSwigluKernelInput {
    pub num_rows: u32,
}

impl SweepCoords for ClampedSwigluKernelInput {
    open spec fn well_shaped(&self) -> bool {
        true
    }

    open spec fn position(&self) -> Seq<Ratio> {
        seq![whole(self.num_rows as int)]
    }

    open spec fn axis_names() -> Seq<Seq<char>> {
        seq!["num_rows"@]
    }

    fn is_well_shaped(&self) -> (r: bool) {
        true
    }

    fn coords(&self) -> (r: Vec<Ratio>) {
        let r: Vec<Ratio> = vec![Ratio::from_whole(self.num_rows)];
        assert(r@ =~= self.position());
        r
    }

    fn coord_field_names() -> (r: Vec<&'static str>) {
        let r: Vec<&'static str> = vec!["num_rows"];
        assert(r@.map_values(|name: &'static str| name@) =~= Self::axis_names());
        r
    }
}

pub struct ClampedSwigluSpec;

impl KernelSpec for ClampedSwigluSpec {
    type Config = ClampedSwigluKernelConfig;

    type Input = ClampedSwigluKernelInput;

    const KIND: KernelKind = "clamped_swiglu";

    open spec fn admits(config: ClampedSwigluKernelConfig) -> bool {
        true
    }

    open spec fn axes(config: ClampedSwigluKernelConfig, tokens: Seq<u32>) -> Seq<Seq<u32>> {
        seq![chained(pow2_points(0, 4), tokens)]
    }

    open spec fn units(axes: Seq<Seq<u32>>) -> Seq<u32> {
        whole_units(axes)
    }

    open spec fn table(backend: Seq<char>) -> CacheKind {
        CacheKind::Cache1DLinear
    }

    open spec fn masks() -> bool {
        false
    }

    open spec fn judges(config: ClampedSwigluKernelConfig, cell: Seq<u32>) -> bool {
        true
    }

    open spec fn infeasible(config: ClampedSwigluKernelConfig, cell: Seq<u32>) -> bool {
        false
    }

    open spec fn table_position(
        config: ClampedSwigluKernelConfig,
        input: ClampedSwigluKernelInput,
    ) -> Seq<Ratio> {
        input.position()
    }

    open spec fn answers(
        config: ClampedSwigluKernelConfig,
        input: ClampedSwigluKernelInput,
    ) -> bool {
        input.well_shaped()
    }

    fn profile_kind() -> (r: KernelKind) {
        Self::KIND
    }

    fn can_sweep(config: &ClampedSwigluKernelConfig) -> (r: bool) {
        true
    }

    fn sweep_grid(config: &ClampedSwigluKernelConfig, tokens: &Vec<u32>) -> (r: SweepGrid) {
        let a0: Vec<u32> = Axis::chain(Axis::pow2(0, 4), tokens);
        let r = SweepGrid::new(vec![a0]);
        proof {
            assert(r.points() =~= Self::axes(*config, tokens@));
            assert(r.scale() =~= whole_units(r.points()));
        }
        r
    }

    fn cache_kind(backend: &str) -> (r: CacheKind) {
        CacheKind::Cache1DLinear
    }

    fn has_mask() -> (r: bool) {
        false
    }

    fn is_infeasible(config: &ClampedSwigluKernelConfig, cell: &Vec<u32>) -> (r: bool) {
        false
    }

    fn can_answer(
        config: &ClampedSwigluKernelConfig,
        input: &ClampedSwigluKernelInput,
    ) -> (r: bool) {
        input.is_well_shaped()
    }

    fn cache_coords(
        config: &ClampedSwigluKernelConfig,
        input: &ClampedSwigluKernelInput,
    ) -> (r: Vec<Ratio>) {
        input.coords()
    }

    proof fn sweep_fits_table(
        config: ClampedSwigluKernelConfig,
        tokens: Seq<u32>,
        backend: Seq<char>,
    ) {
    }

    proof fn sweep_is_judged(config: ClampedSwigluKernelConfig, tokens: Seq<u32>, index: nat) {
    }

    proof fn queries_fit_table(
        config: ClampedSwigluKernelConfig,
        input: ClampedSwigluKernelInput,
        backend: Seq<char>,
    ) {
    }
}

impl CellPayloads for ClampedSwigluSpec {
    open spec fn covers(config: ClampedSwigluKernelConfig, cell: Seq<u32>) -> bool {
        cell.len() == 1
    }

    open spec fn enumerates(config: ClampedSwigluKernelConfig) -> bool {
        true
    }

    open spec fn fields(
        config: ClampedSwigluKernelConfig,
        cell: Seq<u32>,
        backend: Seq<char>,
    ) -> Map<Seq<char>, WireValue> {
        Map::<Seq<char>, WireValue>::empty()
            .insert("num_rows"@, WireValue::Number(cell[0] as nat))
            .insert("hidden_dim"@, WireValue::Number(config.hidden_dim@.fold() as nat))
            .insert("dtype"@, WireValue::Text(dtype_text(config.dtype)))
            .insert("backend"@, WireValue::Text(backend))
    }

    fn can_enumerate(config: &ClampedSwigluKernelConfig) -> (r: bool) {
        true
    }

    fn cell_payload(
        config: &ClampedSwigluKernelConfig,
        cell: &Vec<u32>,
        backend: &str,
    ) -> (r: ArgsPayload) {
        ArgsPayload::new()
            .with("num_rows", number_value(cell[0]))
            .with("hidden_dim", number_value(config.hidden_dim.get()))
            .with("dtype", text_value(config.dtype.as_str()))
            .with("backend", text_value(backend))
    }

    proof fn sweep_is_covered(config: ClampedSwigluKernelConfig, tokens: Seq<u32>, index: nat) {
        cell_on_axes(Self::axes(config, tokens), index);
    }

    proof fn fields_name_backend(
        config: ClampedSwigluKernelConfig,
        cell: Seq<u32>,
        backend: Seq<char>,
    ) {
    }

    open spec fn describes(
        config: ClampedSwigluKernelConfig,
        fields: Map<Seq<char>, WireValue>,
        input: ClampedSwigluKernelInput,
    ) -> bool {
        number_at(fields, "num_rows"@) == input.num_rows
    }

    open spec fn occurs(config: ClampedSwigluKernelConfig, cell: Seq<u32>) -> bool {
        true
    }

    open spec fn kept_back() -> Set<Seq<char>> {
        set!["backends"@, "gpu_name"@]
    }

    proof fn payload_stands_at_its_cell(
        config: ClampedSwigluKernelConfig,
        tokens: Seq<u32>,
        index: nat,
        backend: Seq<char>,
        input: ClampedSwigluKernelInput,
    ) {
        cell_on_axes(Self::axes(config, tokens), index);
        reveal_strlit("num_rows");
        reveal_strlit("hidden_dim");
        reveal_strlit("dtype");
        reveal_strlit("backend");
        assert("num_rows"@.len() == 8);
        assert("hidden_dim"@.len() == 10);
        assert("dtype"@.len() == 5);
        assert("backend"@.len() == 7);
    }

    proof fn payload_carries_config(
        config: ClampedSwigluKernelConfig,
        cell: Seq<u32>,
        backend: Seq<char>,
        i: int,
    ) {
        reveal_strlit("hidden_dim");
        reveal_strlit("dtype");
        reveal_strlit("backend");
        assert("hidden_dim"@.len() == 10);
        assert("dtype"@.len() == 5);
        assert("backend"@.len() == 7);
        let fields = Self::fields(config, cell, backend);
        let terms = config.description();
        assert(carries(fields, terms[2]));
        assert(carries(fields, terms[3]));
    }

    proof fn described_alike_is_profiled_alike(
        a: ClampedSwigluKernelConfig,
        b: ClampedSwigluKernelConfig,
        tokens: Seq<u32>,
        cell: Seq<u32>,
        backend: Seq<char>,
    ) {
        let (x, y) = (a.description(), b.description());
        assert(x[0] == y[0]);
        assert(x[1] == y[1]);
        assert(x[2] == y[2]);
        assert(x[3] == y[3]);
    }
}

/// The kernel computes in the precision that is described as `dtype` and names no precision
/// that it keeps its cache in.
pub proof fn precisions_are_described(config: ClampedSwigluKernelConfig)
    ensures
        config.compute() matches Some(precision) && config.description()[3] == (
            "dtype"@,
            ConfigTerm::Precision(precision),
        ),
        config.kv() is None,
{
}

} // verus!
