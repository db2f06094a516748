//! Decode logits of the sparse indexer over a paged index cache.
//!
//! The sweep brackets the page seams, the scheduler segments and the batch wave of the
//! device; contexts above the model length are left out.

use crate::bridge::payload::{
    dtype_text, flag_value, number_value, text_value, ArgsPayload, DType, KernelKind, WireValue,
};
use crate::cache::{CacheKind, Extrapolation};
use crate::dims::Dim;
use crate::kernels::config::{
    dimension_of, field, fields_view, flag_of, names_of, number_of, precision_of, text_of,
    ConfigField, ConfigTerm, KernelConfig,
};
use crate::kernels::engine::{
    carries, number_at, whole_units, CellPayloads, KernelSpec, SweepCoords,
};
use crate::sweep::{cell_on_axes, whole, Axis, Ratio, SweepGrid};
use vstd::prelude::*;

verus! {

#[derive(Clone, Debug, PartialEq, Eq, Hash)]
pub struct DsaPagedMqaLogitsDecodeKernelConfig {
    pub backends: Vec<&'static str>,
    pub gpu_name: String,
    pub next_n: u32,
    pub max_model_len: Dim,
    pub num_heads: Dim,
    pub head_dim: Dim,
    pub block_size: u32,
    pub q_dtype: DType,
    pub cache_dtype: DType,
    pub scale_dtype: DType,
    pub weight_dtype: DType,
    pub output_dtype: DType,
    pub context_mode: String,
    pub page_mapping: String,
    pub cache_format: String,
    pub clean_logits: bool,
}

impl KernelConfig for DsaPagedMqaLogitsDecodeKernelConfig {
    const BACKENDS_FIELD: &'static str = "DsaPagedMqaLogitsDecodeKernelConfig.backends";

    open spec fn candidates(&self) -> Seq<&'static str> {
        self.backends@
    }

    open spec fn gpu(&self) -> Seq<char> {
        self.gpu_name@
    }

    open spec fn compute(&self) -> Option<DType> {
        Some(self.q_dtype)
    }

    open spec fn kv(&self) -> Option<DType> {
        Some(self.cache_dtype)
    }

    open spec fn description(&self) -> Seq<(Seq<char>, ConfigTerm)> {
        seq![
            ("backends"@, ConfigTerm::Names(self.backends@)),
            ("gpu_name"@, ConfigTerm::Text(self.gpu_name@)),
            ("next_n"@, ConfigTerm::Number(self.next_n as nat)),
            ("max_model_len"@, ConfigTerm::Dimension(self.max_model_len@)),
            ("num_heads"@, ConfigTerm::Dimension(self.num_heads@)),
            ("head_dim"@, ConfigTerm::Dimension(self.head_dim@)),
            ("block_size"@, ConfigTerm::Number(self.block_size as nat)),
            ("q_dtype"@, ConfigTerm::Precision(self.q_dtype)),
            ("cache_dtype"@, ConfigTerm::Precision(self.cache_dtype)),
            ("scale_dtype"@, ConfigTerm::Precision(self.scale_dtype)),
            ("weight_dtype"@, ConfigTerm::Precision(self.weight_dtype)),
            ("output_dtype"@, ConfigTerm::Precision(self.output_dtype)),
            ("context_mode"@, ConfigTerm::Text(self.context_mode@)),
            ("page_mapping"@, ConfigTerm::Text(self.page_mapping@)),
            ("cache_format"@, ConfigTerm::Text(self.cache_format@)),
            ("clean_logits"@, ConfigTerm::Flag(self.clean_logits)),
        ]
    }

    fn backends(&self) -> (r: &Vec<&'static str>) {
        &self.backends
    }

    fn gpu_name(&self) -> (r: &str) {
        self.gpu_name.as_str()
    }

    fn compute_dtype(&self) -> (r: Option<DType>) {
        Some(self.q_dtype)
    }

    fn kv_dtype(&self) -> (r: Option<DType>) {
        Some(self.cache_dtype)
    }

    fn describe_config(&self) -> (r: Vec<ConfigField>) {
        let r: Vec<ConfigField> = vec![
            field("backends", names_of(&self.backends)),
            field("gpu_name", text_of(self.gpu_name.as_str())),
            field("next_n", number_of(self.next_n)),
            field("max_model_len", dimension_of(&self.max_model_len)),
            field("num_heads", dimension_of(&self.num_heads)),
            field("head_dim", dimension_of(&self.head_dim)),
            field("block_size", number_of(self.block_size)),
            field("q_dtype", precision_of(self.q_dtype)),
            field("cache_dtype", precision_of(self.cache_dtype)),
            field("scale_dtype", precision_of(self.scale_dtype)),
            field("weight_dtype", precision_of(self.weight_dtype)),
            field("output_dtype", precision_of(self.output_dtype)),
            field("context_mode", text_of(self.context_mode.as_str())),
            field("page_mapping", text_of(self.page_mapping.as_str())),
            field("cache_format", text_of(self.cache_format.as_str())),
            field("clean_logits", flag_of(self.clean_logits)),
        ];
        assert(fields_view(r@) =~= self.description());
        r
    }
}

#[derive(Clone, Copy, Debug, PartialEq, Eq, Hash)]
pub struct DsaPagedMqaLogitsDecodeKernelInput {
    pub batch_size: u32,
    pub context_len: u32,
}

impl SweepCoords for DsaPagedMqaLogitsDecodeKernelInput {
    open spec fn well_shaped(&self) -> bool {
        true
    }

    open spec fn position(&self) -> Seq<Ratio> {
        seq![whole(self.batch_size as int), whole(self.context_len as int)]
    }

    open spec fn axis_names() -> Seq<Seq<char>> {
        seq!["batch_size"@, "context_len"@]
    }

    fn is_well_shaped(&self) -> (r: bool) {
        true
    }

    fn coords(&self) -> (r: Vec<Ratio>) {
        let r: Vec<Ratio> = vec![Ratio::from_whole(self.batch_size), Ratio::from_whole(self.context_len)];
        assert(r@ =~= self.position());
        r
    }

    fn coord_field_names() -> (r: Vec<&'static str>) {
        let r: Vec<&'static str> = vec!["batch_size", "context_len"];
        assert(r@.map_values(|name: &'static str| name@) =~= Self::axis_names());
        r
    }
}

pub struct DsaPagedMqaLogitsDecodeSpec;

impl KernelSpec for DsaPagedMqaLogitsDecodeSpec {
    type Config = DsaPagedMqaLogitsDecodeKernelConfig;

    type Input = DsaPagedMqaLogitsDecodeKernelInput;

    const KIND: KernelKind = "dsa_paged_mqa_logits_decode";

    open spec fn profiled_as() -> Seq<char> {
        Self::KIND@
    }

    open spec fn admits(config: DsaPagedMqaLogitsDecodeKernelConfig) -> bool {
        true
    }

    open spec fn axes(
        config: DsaPagedMqaLogitsDecodeKernelConfig,
        tokens: Seq<u32>,
    ) -> Seq<Seq<u32>> {
        seq![
            seq![
                1u32, 2, 4, 8, 16, 32, 64, 127, 128, 129, 131, 132, 133, 256,
            ],
            seq![
                1u32, 63, 64, 65, 128, 255, 256, 257, 512, 1024, 2048, 4096, 8192, 16384, 32768,
                65536,
            ],
        ]
    }

    open spec fn units(axes: Seq<Seq<u32>>) -> Seq<u32> {
        whole_units(axes)
    }

    open spec fn table(backend: Seq<char>) -> CacheKind {
        CacheKind::Cache2DLinear(Extrapolation::Product)
    }

    open spec fn masks() -> bool {
        true
    }

    open spec fn judges(config: DsaPagedMqaLogitsDecodeKernelConfig, cell: Seq<u32>) -> bool {
        cell.len() == 2
    }

    open spec fn infeasible(config: DsaPagedMqaLogitsDecodeKernelConfig, cell: Seq<u32>) -> bool {
        cell[1] > config.max_model_len@.fold()
    }

    open spec fn table_position(
        config: DsaPagedMqaLogitsDecodeKernelConfig,
        input: DsaPagedMqaLogitsDecodeKernelInput,
    ) -> Seq<Ratio> {
        input.position()
    }

    open spec fn answers(
        config: DsaPagedMqaLogitsDecodeKernelConfig,
        input: DsaPagedMqaLogitsDecodeKernelInput,
    ) -> bool {
        input.well_shaped()
    }

    fn profile_kind() -> (r: KernelKind) {
        Self::KIND
    }

    fn can_sweep(config: &DsaPagedMqaLogitsDecodeKernelConfig) -> (r: bool) {
        true
    }

    fn sweep_grid(
        config: &DsaPagedMqaLogitsDecodeKernelConfig,
        tokens: &Vec<u32>,
    ) -> (r: SweepGrid) {
        let a0: Vec<u32> = Axis::values(vec![
            1, 2, 4, 8, 16, 32, 64, 127, 128, 129, 131, 132, 133, 256,
        ]);
        let a1: Vec<u32> = Axis::values(vec![
            1, 63, 64, 65, 128, 255, 256, 257, 512, 1024, 2048, 4096, 8192, 16384, 32768, 65536,
        ]);
        let r = SweepGrid::new(vec![a0, a1]);
        proof {
            assert(r.points() =~= Self::axes(*config, tokens@));
            assert(r.scale() =~= whole_units(r.points()));
        }
        r
    }

    fn cache_kind(backend: &str) -> (r: CacheKind) {
        CacheKind::Cache2DLinear(Extrapolation::Product)
    }

    fn has_mask() -> (r: bool) {
        true
    }

    fn is_infeasible(config: &DsaPagedMqaLogitsDecodeKernelConfig, cell: &Vec<u32>) -> (r: bool) {
        cell[1] > config.max_model_len.get()
    }

    fn can_answer(
        config: &DsaPagedMqaLogitsDecodeKernelConfig,
        input: &DsaPagedMqaLogitsDecodeKernelInput,
    ) -> (r: bool) {
        input.is_well_shaped()
    }

    fn cache_coords(
        config: &DsaPagedMqaLogitsDecodeKernelConfig,
        input: &DsaPagedMqaLogitsDecodeKernelInput,
    ) -> (r: Vec<Ratio>) {
        input.coords()
    }

    proof fn sweep_fits_table(
        config: DsaPagedMqaLogitsDecodeKernelConfig,
        tokens: Seq<u32>,
        backend: Seq<char>,
    ) {
    }

    proof fn sweep_is_judged(
        config: DsaPagedMqaLogitsDecodeKernelConfig,
        tokens: Seq<u32>,
        index: nat,
    ) {
        cell_on_axes(Self::axes(config, tokens), index);
    }

    proof fn queries_fit_table(
        config: DsaPagedMqaLogitsDecodeKernelConfig,
        input: DsaPagedMqaLogitsDecodeKernelInput,
        backend: Seq<char>,
    ) {
    }
}

impl CellPayloads for DsaPagedMqaLogitsDecodeSpec {
    open spec fn covers(config: DsaPagedMqaLogitsDecodeKernelConfig, cell: Seq<u32>) -> bool {
        cell.len() == 2
    }

    open spec fn enumerates(config: DsaPagedMqaLogitsDecodeKernelConfig) -> bool {
        true
    }

    open spec fn fields(
        config: DsaPagedMqaLogitsDecodeKernelConfig,
        cell: Seq<u32>,
        backend: Seq<char>,
    ) -> Map<Seq<char>, WireValue> {
        Map::<Seq<char>, WireValue>::empty()
            .insert("batch_size"@, WireValue::Number(cell[0] as nat))
            .insert("context_len"@, WireValue::Number(cell[1] as nat))
            .insert("next_n"@, WireValue::Number(config.next_n as nat))
            .insert("max_model_len"@, WireValue::Number(config.max_model_len@.fold() as nat))
            .insert("num_heads"@, WireValue::Number(config.num_heads@.fold() as nat))
            .insert("head_dim"@, WireValue::Number(config.head_dim@.fold() as nat))
            .insert("block_size"@, WireValue::Number(config.block_size as nat))
            .insert("q_dtype"@, WireValue::Text(dtype_text(config.q_dtype)))
            .insert("cache_dtype"@, WireValue::Text(dtype_text(config.cache_dtype)))
            .insert("scale_dtype"@, WireValue::Text(dtype_text(config.scale_dtype)))
            .insert("weight_dtype"@, WireValue::Text(dtype_text(config.weight_dtype)))
            .insert("output_dtype"@, WireValue::Text(dtype_text(config.output_dtype)))
            .insert("context_mode"@, WireValue::Text(config.context_mode@))
            .insert("page_mapping"@, WireValue::Text(config.page_mapping@))
            .insert("cache_format"@, WireValue::Text(config.cache_format@))
            .insert("clean_logits"@, WireValue::Flag(config.clean_logits))
            .insert("backend"@, WireValue::Text(backend))
    }

    fn can_enumerate(config: &DsaPagedMqaLogitsDecodeKernelConfig) -> (r: bool) {
        true
    }

    fn cell_payload(
        config: &DsaPagedMqaLogitsDecodeKernelConfig,
        cell: &Vec<u32>,
        backend: &str,
    ) -> (r: ArgsPayload) {
        ArgsPayload::new()
            .with("batch_size", number_value(cell[0]))
            .with("context_len", number_value(cell[1]))
            .with("next_n", number_value(config.next_n))
            .with("max_model_len", number_value(config.max_model_len.get()))
            .with("num_heads", number_value(config.num_heads.get()))
            .with("head_dim", number_value(config.head_dim.get()))
            .with("block_size", number_value(config.block_size))
            .with("q_dtype", text_value(config.q_dtype.as_str()))
            .with("cache_dtype", text_value(config.cache_dtype.as_str()))
            .with("scale_dtype", text_value(config.scale_dtype.as_str()))
            .with("weight_dtype", text_value(config.weight_dtype.as_str()))
            .with("output_dtype", text_value(config.output_dtype.as_str()))
            .with("context_mode", text_value(config.context_mode.as_str()))
            .with("page_mapping", text_value(config.page_mapping.as_str()))
            .with("cache_format", text_value(config.cache_format.as_str()))
            .with("clean_logits", flag_value(config.clean_logits))
            .with("backend", text_value(backend))
    }

    proof fn sweep_is_covered(
        config: DsaPagedMqaLogitsDecodeKernelConfig,
        tokens: Seq<u32>,
        index: nat,
    ) {
        cell_on_axes(Self::axes(config, tokens), index);
    }

    proof fn fields_name_backend(
        config: DsaPagedMqaLogitsDecodeKernelConfig,
        cell: Seq<u32>,
        backend: Seq<char>,
    ) {
    }

    open spec fn describes(
        config: DsaPagedMqaLogitsDecodeKernelConfig,
        fields: Map<Seq<char>, WireValue>,
        input: DsaPagedMqaLogitsDecodeKernelInput,
    ) -> bool {
        &&& number_at(fields, "batch_size"@) == input.batch_size
        &&& number_at(fields, "context_len"@) == input.context_len
    }

    open spec fn occurs(config: DsaPagedMqaLogitsDecodeKernelConfig, cell: Seq<u32>) -> bool {
        true
    }

    open spec fn kept_back() -> Set<Seq<char>> {
        set!["backends"@, "gpu_name"@]
    }

    proof fn payload_stands_at_its_cell(
        config: DsaPagedMqaLogitsDecodeKernelConfig,
        tokens: Seq<u32>,
        index: nat,
        backend: Seq<char>,
        input: DsaPagedMqaLogitsDecodeKernelInput,
    ) {
        cell_on_axes(Self::axes(config, tokens), index);
        reveal_strlit("batch_size");
        reveal_strlit("context_len");
        reveal_strlit("next_n");
        reveal_strlit("max_model_len");
        reveal_strlit("num_heads");
        reveal_strlit("head_dim");
        reveal_strlit("block_size");
        reveal_strlit("q_dtype");
        reveal_strlit("cache_dtype");
        reveal_strlit("scale_dtype");
        reveal_strlit("weight_dtype");
        reveal_strlit("output_dtype");
        reveal_strlit("context_mode");
        reveal_strlit("page_mapping");
        reveal_strlit("cache_format");
        reveal_strlit("clean_logits");
        reveal_strlit("backend");
        assert("batch_size"@.len() == 10 && "batch_size"@[1] == 'a');
        assert("context_len"@.len() == 11 && "context_len"@[1] == 'o');
        assert("next_n"@.len() == 6);
        assert("max_model_len"@.len() == 13);
        assert("num_heads"@.len() == 9);
        assert("head_dim"@.len() == 8);
        assert("block_size"@.len() == 10 && "block_size"@[1] == 'l');
        assert("q_dtype"@.len() == 7);
        assert("cache_dtype"@.len() == 11 && "cache_dtype"@[1] == 'a');
        assert("scale_dtype"@.len() == 11 && "scale_dtype"@[1] == 'c');
        assert("weight_dtype"@.len() == 12);
        assert("output_dtype"@.len() == 12);
        assert("context_mode"@.len() == 12);
        assert("page_mapping"@.len() == 12);
        assert("cache_format"@.len() == 12);
        assert("clean_logits"@.len() == 12);
        assert("backend"@.len() == 7);
    }

    proof fn payload_carries_config(
        config: DsaPagedMqaLogitsDecodeKernelConfig,
        cell: Seq<u32>,
        backend: Seq<char>,
        i: int,
    ) {
        reveal_strlit("next_n");
        reveal_strlit("max_model_len");
        reveal_strlit("num_heads");
        reveal_strlit("head_dim");
        reveal_strlit("block_size");
        reveal_strlit("q_dtype");
        reveal_strlit("cache_dtype");
        reveal_strlit("scale_dtype");
        reveal_strlit("weight_dtype");
        reveal_strlit("output_dtype");
        reveal_strlit("context_mode");
        reveal_strlit("page_mapping");
        reveal_strlit("cache_format");
        reveal_strlit("clean_logits");
        reveal_strlit("backend");
        assert("next_n"@.len() == 6);
        assert("max_model_len"@.len() == 13);
        assert("num_heads"@.len() == 9);
        assert("head_dim"@.len() == 8);
        assert("block_size"@.len() == 10);
        assert("q_dtype"@.len() == 7 && "q_dtype"@[0] == 'q');
        assert("cache_dtype"@.len() == 11 && "cache_dtype"@[0] == 'c');
        assert("scale_dtype"@.len() == 11 && "scale_dtype"@[0] == 's');
        assert("weight_dtype"@.len() == 12 && "weight_dtype"@[0] == 'w');
        assert("output_dtype"@.len() == 12 && "output_dtype"@[0] == 'o');
        assert("context_mode"@.len() == 12);
        assert("context_mode"@[0] == 'c');
        assert("context_mode"@[1] == 'o');
        assert("page_mapping"@.len() == 12 && "page_mapping"@[0] == 'p');
        assert("cache_format"@.len() == 12);
        assert("cache_format"@[0] == 'c');
        assert("cache_format"@[1] == 'a');
        assert("clean_logits"@.len() == 12);
        assert("clean_logits"@[0] == 'c');
        assert("clean_logits"@[1] == 'l');
        assert("backend"@.len() == 7 && "backend"@[0] == 'b');
        let fields = Self::fields(config, cell, backend);
        let terms = config.description();
        assert(carries(fields, terms[2]));
        assert(carries(fields, terms[3]));
        assert(carries(fields, terms[4]));
        assert(carries(fields, terms[5]));
        assert(carries(fields, terms[6]));
        assert(carries(fields, terms[7]));
        assert(carries(fields, terms[8]));
        assert(carries(fields, terms[9]));
        assert(carries(fields, terms[10]));
        assert(carries(fields, terms[11]));
        assert(carries(fields, terms[12]));
        assert(carries(fields, terms[13]));
        assert(carries(fields, terms[14]));
        assert(carries(fields, terms[15]));
    }

    proof fn described_alike_is_profiled_alike(
        a: DsaPagedMqaLogitsDecodeKernelConfig,
        b: DsaPagedMqaLogitsDecodeKernelConfig,
        tokens: Seq<u32>,
        cell: Seq<u32>,
        backend: Seq<char>,
    ) {
        let (x, y) = (a.description(), b.description());
        assert(x[0] == y[0]);
        assert(x[1] == y[1]);
        assert(x[2] == y[2]);
        assert(x[3] == y[3]);
        assert(x[4] == y[4]);
        assert(x[5] == y[5]);
        assert(x[6] == y[6]);
        assert(x[7] == y[7]);
        assert(x[8] == y[8]);
        assert(x[9] == y[9]);
        assert(x[10] == y[10]);
        assert(x[11] == y[11]);
        assert(x[12] == y[12]);
        assert(x[13] == y[13]);
        assert(x[14] == y[14]);
        assert(x[15] == y[15]);
    }
}

/// The kernel computes in the precision that is described as `q_dtype` and keeps its cache
/// in the precision that is described as `cache_dtype`.
pub proof fn precisions_are_described(config: DsaPagedMqaLogitsDecodeKernelConfig)
    ensures
        config.compute() matches Some(precision) && config.description()[7] == (
            "q_dtype"@,
            ConfigTerm::Precision(precision),
        ),
        config.kv() matches Some(precision) && config.description()[8] == (
            "cache_dtype"@,
            ConfigTerm::Precision(precision),
        ),
{
}

} // verus!
