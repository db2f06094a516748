//! Rotary embedding of sparse-indexer queries fused with FP8 quantization.

use crate::bridge::payload::{
    dtype_text, flag_value, number_value, text_value, ArgsPayload, DType, KernelKind, WireValue,
};
use crate::cache::CacheKind;
use crate::dims::Dim;
use crate::kernels::config::{
    dimension_of, field, fields_view, flag_of, names_of, precision_of, text_of, ConfigField,
    ConfigTerm, KernelConfig,
};
use crate::kernels::engine::{
    carries, number_at, whole_units, CellPayloads, KernelSpec, SweepCoords,
};
use crate::sweep::{cell_on_axes, chained, whole, Axis, Ratio, SweepGrid};
use vstd::prelude::*;

verus! {

#[derive(Clone, Debug, PartialEq, Eq, Hash)]
pub struct DsaIndexerQRopeQuantKernelConfig {
    pub backends: Vec<&'static str>,
    pub gpu_name: String,
    pub num_heads: Dim,
    pub head_dim: Dim,
    pub rope_dim: Dim,
    pub rope_layout: String,
    pub hadamard: bool,
    pub input_dtype: DType,
    pub q_output_dtype: DType,
    pub weight_output_dtype: DType,
}

impl KernelConfig for DsaIndexerQRopeQuantKernelConfig {
    const BACKENDS_FIELD: &'static str = "DsaIndexerQRopeQuantKernelConfig.backends";

    open spec fn candidates(&self) -> Seq<&'static str> {
        self.backends@
    }

    open spec fn gpu(&self) -> Seq<char> {
        self.gpu_name@
    }

    open spec fn compute(&self) -> Option<DType> {
        Some(self.input_dtype)
    }

    open spec fn kv(&self) -> Option<DType> {
        None
    }

    open spec fn description(&self) -> Seq<(Seq<char>, ConfigTerm)> {
        seq![
            ("backends"@, ConfigTerm::Names(self.backends@)),
            ("gpu_name"@, ConfigTerm::Text(self.gpu_name@)),
            ("num_heads"@, ConfigTerm::Dimension(self.num_heads@)),
            ("head_dim"@, ConfigTerm::Dimension(self.head_dim@)),
            ("rope_dim"@, ConfigTerm::Dimension(self.rope_dim@)),
            ("rope_layout"@, ConfigTerm::Text(self.rope_layout@)),
            ("hadamard"@, ConfigTerm::Flag(self.hadamard)),
            ("input_dtype"@, ConfigTerm::Precision(self.input_dtype)),
            ("q_output_dtype"@, ConfigTerm::Precision(self.q_output_dtype)),
            ("weight_output_dtype"@, ConfigTerm::Precision(self.weight_output_dtype)),
        ]
    }

    fn backends(&self) -> (r: &Vec<&'static str>) {
        &self.backends
    }

    fn gpu_name(&self) -> (r: &str) {
        self.gpu_name.as_str()
    }

    fn compute_dtype(&self) -> (r: Option<DType>) {
        Some(self.input_dtype)
    }

    fn kv_dtype(&self) -> (r: Option<DType>) {
        None
    }

    fn describe_config(&self) -> (r: Vec<ConfigField>) {
        let r: Vec<ConfigField> = vec![
            field("backends", names_of(&self.backends)),
            field("gpu_name", text_of(self.gpu_name.as_str())),
            field("num_heads", dimension_of(&self.num_heads)),
            field("head_dim", dimension_of(&self.head_dim)),
            field("rope_dim", dimension_of(&self.rope_dim)),
            field("rope_layout", text_of(self.rope_layout.as_str())),
            field("hadamard", flag_of(self.hadamard)),
            field("input_dtype", precision_of(self.input_dtype)),
            field("q_output_dtype", precision_of(self.q_output_dtype)),
            field("weight_output_dtype", precision_of(self.weight_output_dtype)),
        ];
        assert(fields_view(r@) =~= self.description());
        r
    }
}

#[derive(Clone, Copy, Debug, PartialEq, Eq, Hash)]
pub struct DsaIndexerQRopeQuantKernelInput {
    pub num_tokens: u32,
}

impl SweepCoords for DsaIndexerQRopeQuantKernelInput {
    open spec fn well_shaped(&self) -> bool {
        true
    }

    open spec fn position(&self) -> Seq<Ratio> {
        seq![whole(self.num_tokens as int)]
    }

    open spec fn axis_names() -> Seq<Seq<char>> {
        seq!["num_tokens"@]
    }

    fn is_well_shaped(&self) -> (r: bool) {
        true
    }

    fn coords(&self) -> (r: Vec<Ratio>) {
        let r: Vec<Ratio> = vec![Ratio::from_whole(self.num_tokens)];
        assert(r@ =~= self.position());
        r
    }

    fn coord_field_names() -> (r: Vec<&'static str>) {
        let r: Vec<&'static str> = vec!["num_tokens"];
        assert(r@.map_values(|name: &'static str| name@) =~= Self::axis_names());
        r
    }
}

pub struct DsaIndexerQRopeQuantSpec;

impl KernelSpec for DsaIndexerQRopeQuantSpec {
    type Config = DsaIndexerQRopeQuantKernelConfig;

    type Input = DsaIndexerQRopeQuantKernelInput;

    const KIND: KernelKind = "dsa_indexer_q_rope_quant";

    open spec fn admits(config: DsaIndexerQRopeQuantKernelConfig) -> bool {
        true
    }

    open spec fn axes(config: DsaIndexerQRopeQuantKernelConfig, tokens: Seq<u32>) -> Seq<Seq<u32>> {
        seq![chained(seq![1u32, 4, 8, 16, 32, 48], tokens)]
    }

    open spec fn units(axes: Seq<Seq<u32>>) -> Seq<u32> {
        whole_units(axes)
    }

    open spec fn table(backend: Seq<char>) -> CacheKind {
        CacheKind::Cache1DLinear
    }

    open spec fn masks() -> bool {
        false
    }

    open spec fn judges(config: DsaIndexerQRopeQuantKernelConfig, cell: Seq<u32>) -> bool {
        true
    }

    open spec fn infeasible(config: DsaIndexerQRopeQuantKernelConfig, cell: Seq<u32>) -> bool {
        false
    }

    open spec fn table_position(
        config: DsaIndexerQRopeQuantKernelConfig,
        input: DsaIndexerQRopeQuantKernelInput,
    ) -> Seq<Ratio> {
        input.position()
    }

    open spec fn answers(
        config: DsaIndexerQRopeQuantKernelConfig,
        input: DsaIndexerQRopeQuantKernelInput,
    ) -> bool {
        input.well_shaped()
    }

    fn profile_kind() -> (r: KernelKind) {
        Self::KIND
    }

    fn can_sweep(config: &DsaIndexerQRopeQuantKernelConfig) -> (r: bool) {
        true
    }

    fn sweep_grid(config: &DsaIndexerQRopeQuantKernelConfig, tokens: &Vec<u32>) -> (r: SweepGrid) {
        let a0: Vec<u32> = Axis::chain(vec![1, 4, 8, 16, 32, 48], tokens);
        let r = SweepGrid::new(vec![a0]);
        proof {
            assert(r.points() =~= Self::axes(*config, tokens@));
            assert(r.scale() =~= whole_units(r.points()));
        }
        r
    }

    fn cache_kind(backend: &str) -> (r: CacheKind) {
        CacheKind::Cache1DLinear
    }

    fn has_mask() -> (r: bool) {
        false
    }

    fn is_infeasible(config: &DsaIndexerQRopeQuantKernelConfig, cell: &Vec<u32>) -> (r: bool) {
        false
    }

    fn can_answer(
        config: &DsaIndexerQRopeQuantKernelConfig,
        input: &DsaIndexerQRopeQuantKernelInput,
    ) -> (r: bool) {
        input.is_well_shaped()
    }

    fn cache_coords(
        config: &DsaIndexerQRopeQuantKernelConfig,
        input: &DsaIndexerQRopeQuantKernelInput,
    ) -> (r: Vec<Ratio>) {
        input.coords()
    }

    proof fn sweep_fits_table(
        config: DsaIndexerQRopeQuantKernelConfig,
        tokens: Seq<u32>,
        backend: Seq<char>,
    ) {
    }

    proof fn sweep_is_judged(
        config: DsaIndexerQRopeQuantKernelConfig,
        tokens: Seq<u32>,
        index: nat,
    ) {
    }

    proof fn queries_fit_table(
        config: DsaIndexerQRopeQuantKernelConfig,
        input: DsaIndexerQRopeQuantKernelInput,
        backend: Seq<char>,
    ) {
    }
}

impl CellPayloads for DsaIndexerQRopeQuantSpec {
    open spec fn covers(config: DsaIndexerQRopeQuantKernelConfig, cell: Seq<u32>) -> bool {
        cell.len() == 1
    }

    open spec fn enumerates(config: DsaIndexerQRopeQuantKernelConfig) -> bool {
        true
    }

    open spec fn fields(
        config: DsaIndexerQRopeQuantKernelConfig,
        cell: Seq<u32>,
        backend: Seq<char>,
    ) -> Map<Seq<char>, WireValue> {
        Map::<Seq<char>, WireValue>::empty()
            .insert("num_tokens"@, WireValue::Number(cell[0] as nat))
            .insert("num_heads"@, WireValue::Number(config.num_heads@.fold() as nat))
            .insert("head_dim"@, WireValue::Number(config.head_dim@.fold() as nat))
            .insert("rope_dim"@, WireValue::Number(config.rope_dim@.fold() as nat))
            .insert("rope_layout"@, WireValue::Text(config.rope_layout@))
            .insert("hadamard"@, WireValue::Flag(config.hadamard))
            .insert("input_dtype"@, WireValue::Text(dtype_text(config.input_dtype)))
            .insert("q_output_dtype"@, WireValue::Text(dtype_text(config.q_output_dtype)))
            .insert("weight_output_dtype"@, WireValue::Text(dtype_text(config.weight_output_dtype)))
            .insert("backend"@, WireValue::Text(backend))
    }

    fn can_enumerate(config: &DsaIndexerQRopeQuantKernelConfig) -> (r: bool) {
        true
    }

    fn cell_payload(
        config: &DsaIndexerQRopeQuantKernelConfig,
        cell: &Vec<u32>,
        backend: &str,
    ) -> (r: ArgsPayload) {
        ArgsPayload::new()
            .with("num_tokens", number_value(cell[0]))
            .with("num_heads", number_value(config.num_heads.get()))
            .with("head_dim", number_value(config.head_dim.get()))
            .with("rope_dim", number_value(config.rope_dim.get()))
            .with("rope_layout", text_value(config.rope_layout.as_str()))
            .with("hadamard", flag_value(config.hadamard))
            .with("input_dtype", text_value(config.input_dtype.as_str()))
            .with("q_output_dtype", text_value(config.q_output_dtype.as_str()))
            .with("weight_output_dtype", text_value(config.weight_output_dtype.as_str()))
            .with("backend", text_value(backend))
    }

    proof fn sweep_is_covered(
        config: DsaIndexerQRopeQuantKernelConfig,
        tokens: Seq<u32>,
        index: nat,
    ) {
        cell_on_axes(Self::axes(config, tokens), index);
    }

    proof fn fields_name_backend(
        config: DsaIndexerQRopeQuantKernelConfig,
        cell: Seq<u32>,
        backend: Seq<char>,
    ) {
    }

    open spec fn describes(
        config: DsaIndexerQRopeQuantKernelConfig,
        fields: Map<Seq<char>, WireValue>,
        input: DsaIndexerQRopeQuantKernelInput,
    ) -> bool {
        number_at(fields, "num_tokens"@) == input.num_tokens
    }

    open spec fn occurs(config: DsaIndexerQRopeQuantKernelConfig, cell: Seq<u32>) -> bool {
        true
    }

    open spec fn kept_back() -> Set<Seq<char>> {
        set!["backends"@, "gpu_name"@]
    }

    proof fn payload_stands_at_its_cell(
        config: DsaIndexerQRopeQuantKernelConfig,
        tokens: Seq<u32>,
        index: nat,
        backend: Seq<char>,
        input: DsaIndexerQRopeQuantKernelInput,
    ) {
        cell_on_axes(Self::axes(config, tokens), index);
        reveal_strlit("num_tokens");
        reveal_strlit("num_heads");
        reveal_strlit("head_dim");
        reveal_strlit("rope_dim");
        reveal_strlit("rope_layout");
        reveal_strlit("hadamard");
        reveal_strlit("input_dtype");
        reveal_strlit("q_output_dtype");
        reveal_strlit("weight_output_dtype");
        reveal_strlit("backend");
        assert("num_tokens"@.len() == 10);
        assert("num_heads"@.len() == 9);
        assert("head_dim"@.len() == 8);
        assert("rope_dim"@.len() == 8);
        assert("rope_layout"@.len() == 11);
        assert("hadamard"@.len() == 8);
        assert("input_dtype"@.len() == 11);
        assert("q_output_dtype"@.len() == 14);
        assert("weight_output_dtype"@.len() == 19);
        assert("backend"@.len() == 7);
    }

    proof fn payload_carries_config(
        config: DsaIndexerQRopeQuantKernelConfig,
        cell: Seq<u32>,
        backend: Seq<char>,
        i: int,
    ) {
        reveal_strlit("num_heads");
        reveal_strlit("head_dim");
        reveal_strlit("rope_dim");
        reveal_strlit("rope_layout");
        reveal_strlit("hadamard");
        reveal_strlit("input_dtype");
        reveal_strlit("q_output_dtype");
        reveal_strlit("weight_output_dtype");
        reveal_strlit("backend");
        assert("num_heads"@.len() == 9);
        assert("head_dim"@.len() == 8 && "head_dim"@[0] == 'h' && "head_dim"@[1] == 'e');
        assert("rope_dim"@.len() == 8 && "rope_dim"@[0] == 'r');
        assert("rope_layout"@.len() == 11 && "rope_layout"@[0] == 'r');
        assert("hadamard"@.len() == 8 && "hadamard"@[0] == 'h' && "hadamard"@[1] == 'a');
        assert("input_dtype"@.len() == 11 && "input_dtype"@[0] == 'i');
        assert("q_output_dtype"@.len() == 14);
        assert("weight_output_dtype"@.len() == 19);
        assert("backend"@.len() == 7);
        let fields = Self::fields(config, cell, backend);
        let terms = config.description();
        assert(carries(fields, terms[2]));
        assert(carries(fields, terms[3]));
        assert(carries(fields, terms[4]));
        assert(carries(fields, terms[5]));
        assert(carries(fields, terms[6]));
        assert(carries(fields, terms[7]));
        assert(carries(fields, terms[8]));
        assert(carries(fields, terms[9]));
    }

    proof fn described_alike_is_profiled_alike(
        a: DsaIndexerQRopeQuantKernelConfig,
        b: DsaIndexerQRopeQuantKernelConfig,
        tokens: Seq<u32>,
        cell: Seq<u32>,
        backend: Seq<char>,
    ) {
        let (x, y) = (a.description(), b.description());
        assert(x[0] == y[0]);
        assert(x[1] == y[1]);
        assert(x[2] == y[2]);
        assert(x[3] == y[3]);
        assert(x[4] == y[4]);
        assert(x[5] == y[5]);
        assert(x[6] == y[6]);
        assert(x[7] == y[7]);
        assert(x[8] == y[8]);
        assert(x[9] == y[9]);
    }
}

/// The kernel computes in the precision that is described as `input_dtype` and names no
/// precision that it keeps its cache in.
pub proof fn precisions_are_described(config: DsaIndexerQRopeQuantKernelConfig)
    ensures
        config.compute() matches Some(precision) && config.description()[7] == (
            "input_dtype"@,
            ConfigTerm::Precision(precision),
        ),
        config.kv() is None,
{
}

} // verus!
