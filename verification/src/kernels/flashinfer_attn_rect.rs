//! Attention without a causal mask over a rectangle of query and key rows.

use crate::bridge::payload::{
    dtype_text, number_value, text_value, ArgsPayload, DType, KernelKind, WireValue,
};
use crate::cache::{CacheKind, Extrapolation};
use crate::kernels::config::{
    copy_numbers, field, fields_view, names_of, number_of, precision_of, text_of, ConfigField,
    ConfigTerm, KernelConfig,
};
use crate::kernels::engine::{
    carries, number_at, whole_units, CellPayloads, KernelSpec, SweepCoords,
};
use crate::sweep::{cell_on_axes, whole, Ratio, SweepGrid};
use vstd::prelude::*;

verus! {

#[derive(Clone, Debug, PartialEq, Eq, Hash)]
pub struct FlashinferAttnRectKernelConfig {
    pub backends: Vec<&'static str>,
    pub gpu_name: String,
    pub num_qo_heads: u32,
    pub num_kv_heads: u32,
    pub head_dim: u32,
    pub q_dtype: DType,
    pub kv_dtype: DType,
    pub o_dtype: DType,
}

impl KernelConfig for FlashinferAttnRectKernelConfig {
    const BACKENDS_FIELD: &'static str = "FlashinferAttnRectKernelConfig.backends";

    open spec fn candidates(&self) -> Seq<&'static str> {
        self.backends@
    }

    open spec fn gpu(&self) -> Seq<char> {
        self.gpu_name@
    }

    open spec fn compute(&self) -> Option<DType> {
        None
    }

    open spec fn kv(&self) -> Option<DType> {
        None
    }

    open spec fn description(&self) -> Seq<(Seq<char>, ConfigTerm)> {
        seq![
            ("backends"@, ConfigTerm::Names(self.backends@)),
            ("gpu_name"@, ConfigTerm::Text(self.gpu_name@)),
            ("num_qo_heads"@, ConfigTerm::Number(self.num_qo_heads as nat)),
            ("num_kv_heads"@, ConfigTerm::Number(self.num_kv_heads as nat)),
            ("head_dim"@, ConfigTerm::Number(self.head_dim as nat)),
            ("q_dtype"@, ConfigTerm::Precision(self.q_dtype)),
            ("kv_dtype"@, ConfigTerm::Precision(self.kv_dtype)),
            ("o_dtype"@, ConfigTerm::Precision(self.o_dtype)),
        ]
    }

    fn backends(&self) -> (r: &Vec<&'static str>) {
        &self.backends
    }

    fn gpu_name(&self) -> (r: &str) {
        self.gpu_name.as_str()
    }

    fn compute_dtype(&self) -> (r: Option<DType>) {
        None
    }

    fn kv_dtype(&self) -> (r: Option<DType>) {
        None
    }

    fn describe_config(&self) -> (r: Vec<ConfigField>) {
        let r: Vec<ConfigField> = vec![
            field("backends", names_of(&self.backends)),
            field("gpu_name", text_of(self.gpu_name.as_str())),
            field("num_qo_heads", number_of(self.num_qo_heads)),
            field("num_kv_heads", number_of(self.num_kv_heads)),
            field("head_dim", number_of(self.head_dim)),
            field("q_dtype", precision_of(self.q_dtype)),
            field("kv_dtype", precision_of(self.kv_dtype)),
            field("o_dtype", precision_of(self.o_dtype)),
        ];
        assert(fields_view(r@) =~= self.description());
        r
    }
}

#[derive(Clone, Copy, Debug, PartialEq, Eq, Hash)]
pub struct FlashinferAttnRectKernelInput {
    pub q_len: u32,
    pub kv_len: u32,
}

impl SweepCoords for FlashinferAttnRectKernelInput {
    open spec fn well_shaped(&self) -> bool {
        true
    }

    open spec fn position(&self) -> Seq<Ratio> {
        seq![whole(self.q_len as int), whole(self.kv_len as int)]
    }

    open spec fn axis_names() -> Seq<Seq<char>> {
        seq!["q_len"@, "kv_len"@]
    }

    fn is_well_shaped(&self) -> (r: bool) {
        true
    }

    fn coords(&self) -> (r: Vec<Ratio>) {
        let r: Vec<Ratio> = vec![Ratio::from_whole(self.q_len), Ratio::from_whole(self.kv_len)];
        assert(r@ =~= self.position());
        r
    }

    fn coord_field_names() -> (r: Vec<&'static str>) {
        let r: Vec<&'static str> = vec!["q_len", "kv_len"];
        assert(r@.map_values(|name: &'static str| name@) =~= Self::axis_names());
        r
    }
}

pub struct FlashinferAttnRectSpec;

impl KernelSpec for FlashinferAttnRectSpec {
    type Config = FlashinferAttnRectKernelConfig;

    type Input = FlashinferAttnRectKernelInput;

    const KIND: KernelKind = "flashinfer_attn_rect";

    open spec fn admits(config: FlashinferAttnRectKernelConfig) -> bool {
        true
    }

    open spec fn axes(config: FlashinferAttnRectKernelConfig, tokens: Seq<u32>) -> Seq<Seq<u32>> {
        seq![tokens, tokens]
    }

    open spec fn units(axes: Seq<Seq<u32>>) -> Seq<u32> {
        whole_units(axes)
    }

    open spec fn table(backend: Seq<char>) -> CacheKind {
        CacheKind::Cache2DLinear(Extrapolation::Product)
    }

    open spec fn masks() -> bool {
        false
    }

    open spec fn judges(config: FlashinferAttnRectKernelConfig, cell: Seq<u32>) -> bool {
        true
    }

    open spec fn infeasible(config: FlashinferAttnRectKernelConfig, cell: Seq<u32>) -> bool {
        false
    }

    open spec fn table_position(
        config: FlashinferAttnRectKernelConfig,
        input: FlashinferAttnRectKernelInput,
    ) -> Seq<Ratio> {
        input.position()
    }

    open spec fn answers(
        config: FlashinferAttnRectKernelConfig,
        input: FlashinferAttnRectKernelInput,
    ) -> bool {
        input.well_shaped()
    }

    fn profile_kind() -> (r: KernelKind) {
        Self::KIND
    }

    fn can_sweep(config: &FlashinferAttnRectKernelConfig) -> (r: bool) {
        true
    }

    fn sweep_grid(config: &FlashinferAttnRectKernelConfig, tokens: &Vec<u32>) -> (r: SweepGrid) {
        let a0: Vec<u32> = copy_numbers(tokens);
        let a1: Vec<u32> = copy_numbers(tokens);
        let r = SweepGrid::new(vec![a0, a1]);
        proof {
            assert(r.points() =~= Self::axes(*config, tokens@));
            assert(r.scale() =~= whole_units(r.points()));
        }
        r
    }

    fn cache_kind(backend: &str) -> (r: CacheKind) {
        CacheKind::Cache2DLinear(Extrapolation::Product)
    }

    fn has_mask() -> (r: bool) {
        false
    }

    fn is_infeasible(config: &FlashinferAttnRectKernelConfig, cell: &Vec<u32>) -> (r: bool) {
        false
    }

    fn can_answer(
        config: &FlashinferAttnRectKernelConfig,
        input: &FlashinferAttnRectKernelInput,
    ) -> (r: bool) {
        input.is_well_shaped()
    }

    fn cache_coords(
        config: &FlashinferAttnRectKernelConfig,
        input: &FlashinferAttnRectKernelInput,
    ) -> (r: Vec<Ratio>) {
        input.coords()
    }

    proof fn sweep_fits_table(
        config: FlashinferAttnRectKernelConfig,
        tokens: Seq<u32>,
        backend: Seq<char>,
    ) {
    }

    proof fn sweep_is_judged(config: FlashinferAttnRectKernelConfig, tokens: Seq<u32>, index: nat) {
    }

    proof fn queries_fit_table(
        config: FlashinferAttnRectKernelConfig,
        input: FlashinferAttnRectKernelInput,
        backend: Seq<char>,
    ) {
    }
}

impl CellPayloads for FlashinferAttnRectSpec {
    open spec fn covers(config: FlashinferAttnRectKernelConfig, cell: Seq<u32>) -> bool {
        cell.len() == 2
    }

    open spec fn enumerates(config: FlashinferAttnRectKernelConfig) -> bool {
        true
    }

    open spec fn fields(
        config: FlashinferAttnRectKernelConfig,
        cell: Seq<u32>,
        backend: Seq<char>,
    ) -> Map<Seq<char>, WireValue> {
        Map::<Seq<char>, WireValue>::empty()
            .insert("num_qo_heads"@, WireValue::Number(config.num_qo_heads as nat))
            .insert("num_kv_heads"@, WireValue::Number(config.num_kv_heads as nat))
            .insert("head_dim"@, WireValue::Number(config.head_dim as nat))
            .insert("q_dtype"@, WireValue::Text(dtype_text(config.q_dtype)))
            .insert("kv_dtype"@, WireValue::Text(dtype_text(config.kv_dtype)))
            .insert("o_dtype"@, WireValue::Text(dtype_text(config.o_dtype)))
            .insert("q_len"@, WireValue::Number(cell[0] as nat))
            .insert("kv_len"@, WireValue::Number(cell[1] as nat))
            .insert("backend"@, WireValue::Text(backend))
    }

    fn can_enumerate(config: &FlashinferAttnRectKernelConfig) -> (r: bool) {
        true
    }

    fn cell_payload(
        config: &FlashinferAttnRectKernelConfig,
        cell: &Vec<u32>,
        backend: &str,
    ) -> (r: ArgsPayload) {
        ArgsPayload::new()
            .with("num_qo_heads", number_value(config.num_qo_heads))
            .with("num_kv_heads", number_value(config.num_kv_heads))
            .with("head_dim", number_value(config.head_dim))
            .with("q_dtype", text_value(config.q_dtype.as_str()))
            .with("kv_dtype", text_value(config.kv_dtype.as_str()))
            .with("o_dtype", text_value(config.o_dtype.as_str()))
            .with("q_len", number_value(cell[0]))
            .with("kv_len", number_value(cell[1]))
            .with("backend", text_value(backend))
    }

    proof fn sweep_is_covered(
        config: FlashinferAttnRectKernelConfig,
        tokens: Seq<u32>,
        index: nat,
    ) {
        cell_on_axes(Self::axes(config, tokens), index);
    }

    proof fn fields_name_backend(
        config: FlashinferAttnRectKernelConfig,
        cell: Seq<u32>,
        backend: Seq<char>,
    ) {
    }

    open spec fn describes(
        config: FlashinferAttnRectKernelConfig,
        fields: Map<Seq<char>, WireValue>,
        input: FlashinferAttnRectKernelInput,
    ) -> bool {
        &&& number_at(fields, "q_len"@) == input.q_len
        &&& number_at(fields, "kv_len"@) == input.kv_len
    }

    open spec fn occurs(config: FlashinferAttnRectKernelConfig, cell: Seq<u32>) -> bool {
        true
    }

    open spec fn kept_back() -> Set<Seq<char>> {
        set!["backends"@, "gpu_name"@]
    }

    proof fn payload_stands_at_its_cell(
        config: FlashinferAttnRectKernelConfig,
        tokens: Seq<u32>,
        index: nat,
        backend: Seq<char>,
        input: FlashinferAttnRectKernelInput,
    ) {
        cell_on_axes(Self::axes(config, tokens), index);
        reveal_strlit("q_len");
        reveal_strlit("kv_len");
        reveal_strlit("backend");
        assert("q_len"@.len() == 5);
        assert("kv_len"@.len() == 6);
        assert("backend"@.len() == 7);
    }

    proof fn payload_carries_config(
        config: FlashinferAttnRectKernelConfig,
        cell: Seq<u32>,
        backend: Seq<char>,
        i: int,
    ) {
        reveal_strlit("num_qo_heads");
        reveal_strlit("num_kv_heads");
        reveal_strlit("head_dim");
        reveal_strlit("q_dtype");
        reveal_strlit("kv_dtype");
        reveal_strlit("o_dtype");
        reveal_strlit("q_len");
        reveal_strlit("kv_len");
        reveal_strlit("backend");
        assert("num_qo_heads"@.len() == 12 && "num_qo_heads"@[4] == 'q');
        assert("num_kv_heads"@.len() == 12 && "num_kv_heads"@[4] == 'k');
        assert("head_dim"@.len() == 8 && "head_dim"@[0] == 'h');
        assert("q_dtype"@.len() == 7 && "q_dtype"@[0] == 'q');
        assert("kv_dtype"@.len() == 8 && "kv_dtype"@[0] == 'k');
        assert("o_dtype"@.len() == 7 && "o_dtype"@[0] == 'o');
        assert("q_len"@.len() == 5);
        assert("kv_len"@.len() == 6);
        assert("backend"@.len() == 7 && "backend"@[0] == 'b');
        let fields = Self::fields(config, cell, backend);
        let terms = config.description();
        assert(carries(fields, terms[2]));
        assert(carries(fields, terms[3]));
        assert(carries(fields, terms[4]));
        assert(carries(fields, terms[5]));
        assert(carries(fields, terms[6]));
        assert(carries(fields, terms[7]));
    }

    proof fn described_alike_is_profiled_alike(
        a: FlashinferAttnRectKernelConfig,
        b: FlashinferAttnRectKernelConfig,
        tokens: Seq<u32>,
        cell: Seq<u32>,
        backend: Seq<char>,
    ) {
        let (x, y) = (a.description(), b.description());
        assert(x[0] == y[0]);
        assert(x[1] == y[1]);
        assert(x[2] == y[2]);
        assert(x[3] == y[3]);
        assert(x[4] == y[4]);
        assert(x[5] == y[5]);
        assert(x[6] == y[6]);
        assert(x[7] == y[7]);
    }
}

/// The kernel names no precision that it computes in and names no precision that it keeps
/// its cache in.
pub proof fn precisions_are_described(config: FlashinferAttnRectKernelConfig)
    ensures
        config.compute() is None,
        config.kv() is None,
{
}

} // verus!
