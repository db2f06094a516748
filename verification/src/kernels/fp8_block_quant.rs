//! Dynamic FP8 quantization of routed rows in independent blocks.

use crate::bridge::payload::{
    dtype_text, number_value, text_value, ArgsPayload, DType, KernelKind, WireValue,
};
use crate::cache::CacheKind;
use crate::dims::Dim;
use crate::kernels::config::{
    dimension_of, field, fields_view, names_of, precision_of, text_of, ConfigField, ConfigTerm,
    KernelConfig,
};
use crate::kernels::engine::{
    carries, number_at, whole_units, CellPayloads, KernelSpec, SweepCoords,
};
use crate::sweep::{cell_on_axes, chained, whole, Axis, Ratio, SweepGrid};
use vstd::prelude::*;

verus! {

#[derive(Clone, Debug, PartialEq, Eq, Hash)]
pub struct Fp8BlockQuantKernelConfig {
    pub backends: Vec<&'static str>,
    pub gpu_name: String,
    pub hidden_size: Dim,
    pub num_problems: Dim,
    pub input_dtype: DType,
}

impl KernelConfig for Fp8BlockQuantKernelConfig {
    const BACKENDS_FIELD: &'static str = "Fp8BlockQuantKernelConfig.backends";

    open spec fn candidates(&self) -> Seq<&'static str> {
        self.backends@
    }

    open spec fn gpu(&self) -> Seq<char> {
        self.gpu_name@
    }

    open spec fn compute(&self) -> Option<DType> {
        Some(self.input_dtype)
    }

    open spec fn kv(&self) -> Option<DType> {
        None
    }

    open spec fn description(&self) -> Seq<(Seq<char>, ConfigTerm)> {
        seq![
            ("backends"@, ConfigTerm::Names(self.backends@)),
            ("gpu_name"@, ConfigTerm::Text(self.gpu_name@)),
            ("hidden_size"@, ConfigTerm::Dimension(self.hidden_size@)),
            ("num_problems"@, ConfigTerm::Dimension(self.num_problems@)),
            ("input_dtype"@, ConfigTerm::Precision(self.input_dtype)),
        ]
    }

    fn backends(&self) -> (r: &Vec<&'static str>) {
        &self.backends
    }

    fn gpu_name(&self) -> (r: &str) {
        self.gpu_name.as_str()
    }

    fn compute_dtype(&self) -> (r: Option<DType>) {
        Some(self.input_dtype)
    }

    fn kv_dtype(&self) -> (r: Option<DType>) {
        None
    }

    fn describe_config(&self) -> (r: Vec<ConfigField>) {
        let r: Vec<ConfigField> = vec![
            field("backends", names_of(&self.backends)),
            field("gpu_name", text_of(self.gpu_name.as_str())),
            field("hidden_size", dimension_of(&self.hidden_size)),
            field("num_problems", dimension_of(&self.num_problems)),
            field("input_dtype", precision_of(self.input_dtype)),
        ];
        assert(fields_view(r@) =~= self.description());
        r
    }
}

#[derive(Clone, Copy, Debug, PartialEq, Eq, Hash)]
pub struct Fp8BlockQuantKernelInput {
    pub num_tokens: u32,
}

impl SweepCoords for Fp8BlockQuantKernelInput {
    open spec fn well_shaped(&self) -> bool {
        true
    }

    open spec fn position(&self) -> Seq<Ratio> {
        seq![whole(self.num_tokens as int)]
    }

    open spec fn axis_names() -> Seq<Seq<char>> {
        seq!["num_tokens"@]
    }

    fn is_well_shaped(&self) -> (r: bool) {
        true
    }

    fn coords(&self) -> (r: Vec<Ratio>) {
        let r: Vec<Ratio> = vec![Ratio::from_whole(self.num_tokens)];
        assert(r@ =~= self.position());
        r
    }

    fn coord_field_names() -> (r: Vec<&'static str>) {
        let r: Vec<&'static str> = vec!["num_tokens"];
        assert(r@.map_values(|name: &'static str| name@) =~= Self::axis_names());
        r
    }
}

pub struct Fp8BlockQuantSpec;

impl KernelSpec for Fp8BlockQuantSpec {
    type Config = Fp8BlockQuantKernelConfig;

    type Input = Fp8BlockQuantKernelInput;

    const KIND: KernelKind = "fp8_block_quant";

    open spec fn admits(config: Fp8BlockQuantKernelConfig) -> bool {
        true
    }

    open spec fn axes(config: Fp8BlockQuantKernelConfig, tokens: Seq<u32>) -> Seq<Seq<u32>> {
        seq![chained(seq![1u32, 4, 8, 16, 32, 48], tokens)]
    }

    open spec fn units(axes: Seq<Seq<u32>>) -> Seq<u32> {
        whole_units(axes)
    }

    open spec fn table(backend: Seq<char>) -> CacheKind {
        CacheKind::Cache1DLinear
    }

    open spec fn masks() -> bool {
        false
    }

    open spec fn judges(config: Fp8BlockQuantKernelConfig, cell: Seq<u32>) -> bool {
        true
    }

    open spec fn infeasible(config: Fp8BlockQuantKernelConfig, cell: Seq<u32>) -> bool {
        false
    }

    open spec fn table_position(
        config: Fp8BlockQuantKernelConfig,
        input: Fp8BlockQuantKernelInput,
    ) -> Seq<Ratio> {
        input.position()
    }

    open spec fn answers(
        config: Fp8BlockQuantKernelConfig,
        input: Fp8BlockQuantKernelInput,
    ) -> bool {
        input.well_shaped()
    }

    fn profile_kind() -> (r: KernelKind) {
        Self::KIND
    }

    fn can_sweep(config: &Fp8BlockQuantKernelConfig) -> (r: bool) {
        true
    }

    fn sweep_grid(config: &Fp8BlockQuantKernelConfig, tokens: &Vec<u32>) -> (r: SweepGrid) {
        let a0: Vec<u32> = Axis::chain(vec![1, 4, 8, 16, 32, 48], tokens);
        let r = SweepGrid::new(vec![a0]);
        proof {
            assert(r.points() =~= Self::axes(*config, tokens@));
            assert(r.scale() =~= whole_units(r.points()));
        }
        r
    }

    fn cache_kind(backend: &str) -> (r: CacheKind) {
        CacheKind::Cache1DLinear
    }

    fn has_mask() -> (r: bool) {
        false
    }

    fn is_infeasible(config: &Fp8BlockQuantKernelConfig, cell: &Vec<u32>) -> (r: bool) {
        false
    }

    fn can_answer(
        config: &Fp8BlockQuantKernelConfig,
        input: &Fp8BlockQuantKernelInput,
    ) -> (r: bool) {
        input.is_well_shaped()
    }

    fn cache_coords(
        config: &Fp8BlockQuantKernelConfig,
        input: &Fp8BlockQuantKernelInput,
    ) -> (r: Vec<Ratio>) {
        input.coords()
    }

    proof fn sweep_fits_table(
        config: Fp8BlockQuantKernelConfig,
        tokens: Seq<u32>,
        backend: Seq<char>,
    ) {
    }

    proof fn sweep_is_judged(config: Fp8BlockQuantKernelConfig, tokens: Seq<u32>, index: nat) {
    }

    proof fn queries_fit_table(
        config: Fp8BlockQuantKernelConfig,
        input: Fp8BlockQuantKernelInput,
        backend: Seq<char>,
    ) {
    }
}

impl CellPayloads for Fp8BlockQuantSpec {
    open spec fn covers(config: Fp8BlockQuantKernelConfig, cell: Seq<u32>) -> bool {
        cell.len() == 1
    }

    open spec fn enumerates(config: Fp8BlockQuantKernelConfig) -> bool {
        true
    }

    open spec fn fields(
        config: Fp8BlockQuantKernelConfig,
        cell: Seq<u32>,
        backend: Seq<char>,
    ) -> Map<Seq<char>, WireValue> {
        Map::<Seq<char>, WireValue>::empty()
            .insert("num_tokens"@, WireValue::Number(cell[0] as nat))
            .insert("hidden_size"@, WireValue::Number(config.hidden_size@.fold() as nat))
            .insert("num_problems"@, WireValue::Number(config.num_problems@.fold() as nat))
            .insert("input_dtype"@, WireValue::Text(dtype_text(config.input_dtype)))
            .insert("backend"@, WireValue::Text(backend))
    }

    fn can_enumerate(config: &Fp8BlockQuantKernelConfig) -> (r: bool) {
        true
    }

    fn cell_payload(
        config: &Fp8BlockQuantKernelConfig,
        cell: &Vec<u32>,
        backend: &str,
    ) -> (r: ArgsPayload) {
        ArgsPayload::new()
            .with("num_tokens", number_value(cell[0]))
            .with("hidden_size", number_value(config.hidden_size.get()))
            .with("num_problems", number_value(config.num_problems.get()))
            .with("input_dtype", text_value(config.input_dtype.as_str()))
            .with("backend", text_value(backend))
    }

    proof fn sweep_is_covered(config: Fp8BlockQuantKernelConfig, tokens: Seq<u32>, index: nat) {
        cell_on_axes(Self::axes(config, tokens), index);
    }

    proof fn fields_name_backend(
        config: Fp8BlockQuantKernelConfig,
        cell: Seq<u32>,
        backend: Seq<char>,
    ) {
    }

    open spec fn describes(
        config: Fp8BlockQuantKernelConfig,
        fields: Map<Seq<char>, WireValue>,
        input: Fp8BlockQuantKernelInput,
    ) -> bool {
        number_at(fields, "num_tokens"@) == input.num_tokens
    }

    open spec fn occurs(config: Fp8BlockQuantKernelConfig, cell: Seq<u32>) -> bool {
        true
    }

    open spec fn kept_back() -> Set<Seq<char>> {
        set!["backends"@, "gpu_name"@]
    }

    proof fn payload_stands_at_its_cell(
        config: Fp8BlockQuantKernelConfig,
        tokens: Seq<u32>,
        index: nat,
        backend: Seq<char>,
        input: Fp8BlockQuantKernelInput,
    ) {
        cell_on_axes(Self::axes(config, tokens), index);
        reveal_strlit("num_tokens");
        reveal_strlit("hidden_size");
        reveal_strlit("num_problems");
        reveal_strlit("input_dtype");
        reveal_strlit("backend");
        assert("num_tokens"@.len() == 10);
        assert("hidden_size"@.len() == 11);
        assert("num_problems"@.len() == 12);
        assert("input_dtype"@.len() == 11);
        assert("backend"@.len() == 7);
    }

    proof fn payload_carries_config(
        config: Fp8BlockQuantKernelConfig,
        cell: Seq<u32>,
        backend: Seq<char>,
        i: int,
    ) {
        reveal_strlit("hidden_size");
        reveal_strlit("num_problems");
        reveal_strlit("input_dtype");
        reveal_strlit("backend");
        assert("hidden_size"@.len() == 11 && "hidden_size"@[0] == 'h');
        assert("num_problems"@.len() == 12);
        assert("input_dtype"@.len() == 11 && "input_dtype"@[0] == 'i');
        assert("backend"@.len() == 7);
        let fields = Self::fields(config, cell, backend);
        let terms = config.description();
        assert(carries(fields, terms[2]));
        assert(carries(fields, terms[3]));
        assert(carries(fields, terms[4]));
    }

    proof fn described_alike_is_profiled_alike(
        a: Fp8BlockQuantKernelConfig,
        b: Fp8BlockQuantKernelConfig,
        tokens: Seq<u32>,
        cell: Seq<u32>,
        backend: Seq<char>,
    ) {
        let (x, y) = (a.description(), b.description());
        assert(x[0] == y[0]);
        assert(x[1] == y[1]);
        assert(x[2] == y[2]);
        assert(x[3] == y[3]);
        assert(x[4] == y[4]);
    }
}

/// The kernel computes in the precision that is described as `input_dtype` and names no
/// precision that it keeps its cache in.
pub proof fn precisions_are_described(config: Fp8BlockQuantKernelConfig)
    ensures
        config.compute() matches Some(precision) && config.description()[4] == (
            "input_dtype"@,
            ConfigTerm::Precision(precision),
        ),
        config.kv() is None,
{
}

} // verus!
