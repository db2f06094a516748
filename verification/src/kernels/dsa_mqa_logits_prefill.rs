//! Prefill logits of the sparse indexer: one value per pair of a query and a key.
//!
//! Cells with more queries than keys are no causal shape, and cells whose dense operand
//! would not fit the largest profiling allocation cannot be measured; both are left out.

use crate::bridge::payload::{
    dtype_text, flag_value, number_value, text_value, ArgsPayload, DType, KernelKind, WireValue,
};
use crate::cache::{CacheKind, Extrapolation};
use crate::dims::Dim;
use crate::kernels::config::{
    dimension_of, field, fields_view, flag_of, names_of, number_of, precision_of, text_of,
    ConfigField, ConfigTerm, KernelConfig,
};
use crate::kernels::engine::{
    carries, number_at, whole_units, CellPayloads, KernelSpec, SweepCoords,
};
use crate::kernels::gdn_causal_conv_prefill::product_of;
use crate::sweep::{cell_on_axes, whole, Axis, Ratio, SweepGrid};
use vstd::prelude::*;

verus! {

/// Bytes of the largest single profiling allocation.
pub const MAX_PROFILE_ALLOCATION_BYTES: u64 = 34359738368;

/// Bytes per pair of a query and a key: a single-precision logit and a validity flag.
pub const DENSE_PAIR_BYTES_PER_ELEMENT: u64 = 5;

#[derive(Clone, Debug, PartialEq, Eq, Hash)]
pub struct DsaMqaLogitsPrefillKernelConfig {
    pub backends: Vec<&'static str>,
    pub gpu_name: String,
    pub num_sequences: u32,
    pub num_heads: Dim,
    pub head_dim: Dim,
    pub q_dtype: DType,
    pub k_dtype: DType,
    pub k_scale_dtype: DType,
    pub weight_dtype: DType,
    pub output_dtype: DType,
    pub span_mode: String,
    pub clean_logits: bool,
}

impl KernelConfig for DsaMqaLogitsPrefillKernelConfig {
    const BACKENDS_FIELD: &'static str = "DsaMqaLogitsPrefillKernelConfig.backends";

    open spec fn candidates(&self) -> Seq<&'static str> {
        self.backends@
    }

    open spec fn gpu(&self) -> Seq<char> {
        self.gpu_name@
    }

    open spec fn compute(&self) -> Option<DType> {
        Some(self.q_dtype)
    }

    open spec fn kv(&self) -> Option<DType> {
        Some(self.k_dtype)
    }

    open spec fn description(&self) -> Seq<(Seq<char>, ConfigTerm)> {
        seq![
            ("backends"@, ConfigTerm::Names(self.backends@)),
            ("gpu_name"@, ConfigTerm::Text(self.gpu_name@)),
            ("num_sequences"@, ConfigTerm::Number(self.num_sequences as nat)),
            ("num_heads"@, ConfigTerm::Dimension(self.num_heads@)),
            ("head_dim"@, ConfigTerm::Dimension(self.head_dim@)),
            ("q_dtype"@, ConfigTerm::Precision(self.q_dtype)),
            ("k_dtype"@, ConfigTerm::Precision(self.k_dtype)),
            ("k_scale_dtype"@, ConfigTerm::Precision(self.k_scale_dtype)),
            ("weight_dtype"@, ConfigTerm::Precision(self.weight_dtype)),
            ("output_dtype"@, ConfigTerm::Precision(self.output_dtype)),
            ("span_mode"@, ConfigTerm::Text(self.span_mode@)),
            ("clean_logits"@, ConfigTerm::Flag(self.clean_logits)),
        ]
    }

    fn backends(&self) -> (r: &Vec<&'static str>) {
        &self.backends
    }

    fn gpu_name(&self) -> (r: &str) {
        self.gpu_name.as_str()
    }

    fn compute_dtype(&self) -> (r: Option<DType>) {
        Some(self.q_dtype)
    }

    fn kv_dtype(&self) -> (r: Option<DType>) {
        Some(self.k_dtype)
    }

    fn describe_config(&self) -> (r: Vec<ConfigField>) {
        let r: Vec<ConfigField> = vec![
            field("backends", names_of(&self.backends)),
            field("gpu_name", text_of(self.gpu_name.as_str())),
            field("num_sequences", number_of(self.num_sequences)),
            field("num_heads", dimension_of(&self.num_heads)),
            field("head_dim", dimension_of(&self.head_dim)),
            field("q_dtype", precision_of(self.q_dtype)),
            field("k_dtype", precision_of(self.k_dtype)),
            field("k_scale_dtype", precision_of(self.k_scale_dtype)),
            field("weight_dtype", precision_of(self.weight_dtype)),
            field("output_dtype", precision_of(self.output_dtype)),
            field("span_mode", text_of(self.span_mode.as_str())),
            field("clean_logits", flag_of(self.clean_logits)),
        ];
        assert(fields_view(r@) =~= self.description());
        r
    }
}

#[derive(Clone, Copy, Debug, PartialEq, Eq, Hash)]
pub struct DsaMqaLogitsPrefillKernelInput {
    pub num_queries: u32,
    pub num_keys: u32,
}

impl SweepCoords for DsaMqaLogitsPrefillKernelInput {
    open spec fn well_shaped(&self) -> bool {
        true
    }

    open spec fn position(&self) -> Seq<Ratio> {
        seq![whole(self.num_queries as int), whole(self.num_keys as int)]
    }

    open spec fn axis_names() -> Seq<Seq<char>> {
        seq!["num_queries"@, "num_keys"@]
    }

    fn is_well_shaped(&self) -> (r: bool) {
        true
    }

    fn coords(&self) -> (r: Vec<Ratio>) {
        let r: Vec<Ratio> = vec![Ratio::from_whole(self.num_queries), Ratio::from_whole(self.num_keys)];
        assert(r@ =~= self.position());
        r
    }

    fn coord_field_names() -> (r: Vec<&'static str>) {
        let r: Vec<&'static str> = vec!["num_queries", "num_keys"];
        assert(r@.map_values(|name: &'static str| name@) =~= Self::axis_names());
        r
    }
}

pub struct DsaMqaLogitsPrefillSpec;

impl KernelSpec for DsaMqaLogitsPrefillSpec {
    type Config = DsaMqaLogitsPrefillKernelConfig;

    type Input = DsaMqaLogitsPrefillKernelInput;

    const KIND: KernelKind = "dsa_mqa_logits_prefill";

    open spec fn admits(config: DsaMqaLogitsPrefillKernelConfig) -> bool {
        true
    }

    open spec fn axes(config: DsaMqaLogitsPrefillKernelConfig, tokens: Seq<u32>) -> Seq<Seq<u32>> {
        seq![
            seq![
                1u32, 2, 3, 4, 8, 16, 32, 64, 127, 128, 129, 255, 256, 257, 363, 512, 1024, 2048,
                4096, 8192, 16384, 32768, 65536,
            ],
            seq![
                1u32, 2, 4, 8, 16, 32, 64, 128, 255, 256, 257, 363, 512, 1024, 2048, 4096, 8192,
                16384, 32768, 65536, 131072, 262144, 524288, 1048576,
            ],
        ]
    }

    open spec fn units(axes: Seq<Seq<u32>>) -> Seq<u32> {
        whole_units(axes)
    }

    open spec fn table(backend: Seq<char>) -> CacheKind {
        CacheKind::Cache2DLinear(Extrapolation::Product)
    }

    open spec fn masks() -> bool {
        true
    }

    open spec fn judges(config: DsaMqaLogitsPrefillKernelConfig, cell: Seq<u32>) -> bool {
        cell.len() == 2
    }

    open spec fn infeasible(config: DsaMqaLogitsPrefillKernelConfig, cell: Seq<u32>) -> bool {
        cell[0] > cell[1] || cell[0] * cell[1] * DENSE_PAIR_BYTES_PER_ELEMENT
            > MAX_PROFILE_ALLOCATION_BYTES
    }

    open spec fn table_position(
        config: DsaMqaLogitsPrefillKernelConfig,
        input: DsaMqaLogitsPrefillKernelInput,
    ) -> Seq<Ratio> {
        input.position()
    }

    open spec fn answers(
        config: DsaMqaLogitsPrefillKernelConfig,
        input: DsaMqaLogitsPrefillKernelInput,
    ) -> bool {
        input.well_shaped()
    }

    fn profile_kind() -> (r: KernelKind) {
        Self::KIND
    }

    fn can_sweep(config: &DsaMqaLogitsPrefillKernelConfig) -> (r: bool) {
        true
    }

    fn sweep_grid(config: &DsaMqaLogitsPrefillKernelConfig, tokens: &Vec<u32>) -> (r: SweepGrid) {
        let a0: Vec<u32> = Axis::values(vec![
            1, 2, 3, 4, 8, 16, 32, 64, 127, 128, 129, 255, 256, 257, 363, 512, 1024, 2048, 4096,
            8192, 16384, 32768, 65536,
        ]);
        let a1: Vec<u32> = Axis::values(vec![
            1, 2, 4, 8, 16, 32, 64, 128, 255, 256, 257, 363, 512, 1024, 2048, 4096, 8192, 16384,
            32768, 65536, 131072, 262144, 524288, 1048576,
        ]);
        let r = SweepGrid::new(vec![a0, a1]);
        proof {
            assert(r.points() =~= Self::axes(*config, tokens@));
            assert(r.scale() =~= whole_units(r.points()));
        }
        r
    }

    fn cache_kind(backend: &str) -> (r: CacheKind) {
        CacheKind::Cache2DLinear(Extrapolation::Product)
    }

    fn has_mask() -> (r: bool) {
        true
    }

    fn is_infeasible(config: &DsaMqaLogitsPrefillKernelConfig, cell: &Vec<u32>) -> (r: bool) {
        let pairs: u64 = product_of(cell[0], cell[1]);
        let bytes: u128 = pairs as u128 * DENSE_PAIR_BYTES_PER_ELEMENT as u128;
        cell[0] > cell[1] || bytes > MAX_PROFILE_ALLOCATION_BYTES as u128
    }

    fn can_answer(
        config: &DsaMqaLogitsPrefillKernelConfig,
        input: &DsaMqaLogitsPrefillKernelInput,
    ) -> (r: bool) {
        input.is_well_shaped()
    }

    fn cache_coords(
        config: &DsaMqaLogitsPrefillKernelConfig,
        input: &DsaMqaLogitsPrefillKernelInput,
    ) -> (r: Vec<Ratio>) {
        input.coords()
    }

    proof fn sweep_fits_table(
        config: DsaMqaLogitsPrefillKernelConfig,
        tokens: Seq<u32>,
        backend: Seq<char>,
    ) {
    }

    proof fn sweep_is_judged(
        config: DsaMqaLogitsPrefillKernelConfig,
        tokens: Seq<u32>,
        index: nat,
    ) {
        cell_on_axes(Self::axes(config, tokens), index);
    }

    proof fn queries_fit_table(
        config: DsaMqaLogitsPrefillKernelConfig,
        input: DsaMqaLogitsPrefillKernelInput,
        backend: Seq<char>,
    ) {
    }
}

impl CellPayloads for DsaMqaLogitsPrefillSpec {
    open spec fn covers(config: DsaMqaLogitsPrefillKernelConfig, cell: Seq<u32>) -> bool {
        cell.len() == 2
    }

    open spec fn enumerates(config: DsaMqaLogitsPrefillKernelConfig) -> bool {
        true
    }

    open spec fn fields(
        config: DsaMqaLogitsPrefillKernelConfig,
        cell: Seq<u32>,
        backend: Seq<char>,
    ) -> Map<Seq<char>, WireValue> {
        Map::<Seq<char>, WireValue>::empty()
            .insert("num_queries"@, WireValue::Number(cell[0] as nat))
            .insert("num_keys"@, WireValue::Number(cell[1] as nat))
            .insert("num_sequences"@, WireValue::Number(config.num_sequences as nat))
            .insert("num_heads"@, WireValue::Number(config.num_heads@.fold() as nat))
            .insert("head_dim"@, WireValue::Number(config.head_dim@.fold() as nat))
            .insert("q_dtype"@, WireValue::Text(dtype_text(config.q_dtype)))
            .insert("k_dtype"@, WireValue::Text(dtype_text(config.k_dtype)))
            .insert("k_scale_dtype"@, WireValue::Text(dtype_text(config.k_scale_dtype)))
            .insert("weight_dtype"@, WireValue::Text(dtype_text(config.weight_dtype)))
            .insert("output_dtype"@, WireValue::Text(dtype_text(config.output_dtype)))
            .insert("span_mode"@, WireValue::Text(config.span_mode@))
            .insert("clean_logits"@, WireValue::Flag(config.clean_logits))
            .insert("backend"@, WireValue::Text(backend))
    }

    fn can_enumerate(config: &DsaMqaLogitsPrefillKernelConfig) -> (r: bool) {
        true
    }

    fn cell_payload(
        config: &DsaMqaLogitsPrefillKernelConfig,
        cell: &Vec<u32>,
        backend: &str,
    ) -> (r: ArgsPayload) {
        ArgsPayload::new()
            .with("num_queries", number_value(cell[0]))
            .with("num_keys", number_value(cell[1]))
            .with("num_sequences", number_value(config.num_sequences))
            .with("num_heads", number_value(config.num_heads.get()))
            .with("head_dim", number_value(config.head_dim.get()))
            .with("q_dtype", text_value(config.q_dtype.as_str()))
            .with("k_dtype", text_value(config.k_dtype.as_str()))
            .with("k_scale_dtype", text_value(config.k_scale_dtype.as_str()))
            .with("weight_dtype", text_value(config.weight_dtype.as_str()))
            .with("output_dtype", text_value(config.output_dtype.as_str()))
            .with("span_mode", text_value(config.span_mode.as_str()))
            .with("clean_logits", flag_value(config.clean_logits))
            .with("backend", text_value(backend))
    }

    proof fn sweep_is_covered(
        config: DsaMqaLogitsPrefillKernelConfig,
        tokens: Seq<u32>,
        index: nat,
    ) {
        cell_on_axes(Self::axes(config, tokens), index);
    }

    proof fn fields_name_backend(
        config: DsaMqaLogitsPrefillKernelConfig,
        cell: Seq<u32>,
        backend: Seq<char>,
    ) {
    }

    open spec fn describes(
        config: DsaMqaLogitsPrefillKernelConfig,
        fields: Map<Seq<char>, WireValue>,
        input: DsaMqaLogitsPrefillKernelInput,
    ) -> bool {
        &&& number_at(fields, "num_queries"@) == input.num_queries
        &&& number_at(fields, "num_keys"@) == input.num_keys
    }

    open spec fn occurs(config: DsaMqaLogitsPrefillKernelConfig, cell: Seq<u32>) -> bool {
        true
    }

    open spec fn kept_back() -> Set<Seq<char>> {
        set!["backends"@, "gpu_name"@]
    }

    proof fn payload_stands_at_its_cell(
        config: DsaMqaLogitsPrefillKernelConfig,
        tokens: Seq<u32>,
        index: nat,
        backend: Seq<char>,
        input: DsaMqaLogitsPrefillKernelInput,
    ) {
        cell_on_axes(Self::axes(config, tokens), index);
        reveal_strlit("num_queries");
        reveal_strlit("num_keys");
        reveal_strlit("num_sequences");
        reveal_strlit("num_heads");
        reveal_strlit("head_dim");
        reveal_strlit("q_dtype");
        reveal_strlit("k_dtype");
        reveal_strlit("k_scale_dtype");
        reveal_strlit("weight_dtype");
        reveal_strlit("output_dtype");
        reveal_strlit("span_mode");
        reveal_strlit("clean_logits");
        reveal_strlit("backend");
        assert("num_queries"@.len() == 11);
        assert("num_keys"@.len() == 8 && "num_keys"@[0] == 'n');
        assert("num_sequences"@.len() == 13);
        assert("num_heads"@.len() == 9);
        assert("head_dim"@.len() == 8 && "head_dim"@[0] == 'h');
        assert("q_dtype"@.len() == 7);
        assert("k_dtype"@.len() == 7);
        assert("k_scale_dtype"@.len() == 13);
        assert("weight_dtype"@.len() == 12);
        assert("output_dtype"@.len() == 12);
        assert("span_mode"@.len() == 9);
        assert("clean_logits"@.len() == 12);
        assert("backend"@.len() == 7);
    }

    proof fn payload_carries_config(
        config: DsaMqaLogitsPrefillKernelConfig,
        cell: Seq<u32>,
        backend: Seq<char>,
        i: int,
    ) {
        reveal_strlit("num_sequences");
        reveal_strlit("num_heads");
        reveal_strlit("head_dim");
        reveal_strlit("q_dtype");
        reveal_strlit("k_dtype");
        reveal_strlit("k_scale_dtype");
        reveal_strlit("weight_dtype");
        reveal_strlit("output_dtype");
        reveal_strlit("span_mode");
        reveal_strlit("clean_logits");
        reveal_strlit("backend");
        assert("num_sequences"@.len() == 13 && "num_sequences"@[0] == 'n');
        assert("num_heads"@.len() == 9 && "num_heads"@[0] == 'n');
        assert("head_dim"@.len() == 8);
        assert("q_dtype"@.len() == 7 && "q_dtype"@[0] == 'q');
        assert("k_dtype"@.len() == 7 && "k_dtype"@[0] == 'k');
        assert("k_scale_dtype"@.len() == 13 && "k_scale_dtype"@[0] == 'k');
        assert("weight_dtype"@.len() == 12 && "weight_dtype"@[0] == 'w');
        assert("output_dtype"@.len() == 12 && "output_dtype"@[0] == 'o');
        assert("span_mode"@.len() == 9 && "span_mode"@[0] == 's');
        assert("clean_logits"@.len() == 12 && "clean_logits"@[0] == 'c');
        assert("backend"@.len() == 7 && "backend"@[0] == 'b');
        let fields = Self::fields(config, cell, backend);
        let terms = config.description();
        assert(carries(fields, terms[2]));
        assert(carries(fields, terms[3]));
        assert(carries(fields, terms[4]));
        assert(carries(fields, terms[5]));
        assert(carries(fields, terms[6]));
        assert(carries(fields, terms[7]));
        assert(carries(fields, terms[8]));
        assert(carries(fields, terms[9]));
        assert(carries(fields, terms[10]));
        assert(carries(fields, terms[11]));
    }

    proof fn described_alike_is_profiled_alike(
        a: DsaMqaLogitsPrefillKernelConfig,
        b: DsaMqaLogitsPrefillKernelConfig,
        tokens: Seq<u32>,
        cell: Seq<u32>,
        backend: Seq<char>,
    ) {
        let (x, y) = (a.description(), b.description());
        assert(x[0] == y[0]);
        assert(x[1] == y[1]);
        assert(x[2] == y[2]);
        assert(x[3] == y[3]);
        assert(x[4] == y[4]);
        assert(x[5] == y[5]);
        assert(x[6] == y[6]);
        assert(x[7] == y[7]);
        assert(x[8] == y[8]);
        assert(x[9] == y[9]);
        assert(x[10] == y[10]);
        assert(x[11] == y[11]);
    }
}

/// The kernel computes in the precision that is described as `q_dtype` and keeps its cache
/// in the precision that is described as `k_dtype`.
pub proof fn precisions_are_described(config: DsaMqaLogitsPrefillKernelConfig)
    ensures
        config.compute() matches Some(precision) && config.description()[5] == (
            "q_dtype"@,
            ConfigTerm::Precision(precision),
        ),
        config.kv() matches Some(precision) && config.description()[6] == (
            "k_dtype"@,
            ConfigTerm::Precision(precision),
        ),
{
}

} // verus!
