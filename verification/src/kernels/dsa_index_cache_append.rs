//! Quantization of index keys and their append to the paged index cache.
//!
//! The sweep covers small decode batches directly and keeps the adjacent points 264 and
//! 265 around the boundary of a launch wave.

use crate::bridge::payload::{
    dtype_text, number_value, text_value, ArgsPayload, DType, KernelKind, WireValue,
};
use crate::cache::CacheKind;
use crate::dims::Dim;
use crate::kernels::config::{
    dimension_of, field, fields_view, names_of, number_of, precision_of, text_of, ConfigField,
    ConfigTerm, KernelConfig,
};
use crate::kernels::engine::{
    carries, number_at, whole_units, CellPayloads, KernelSpec, SweepCoords,
};
use crate::sweep::{cell_on_axes, chained, pow2_points, whole, Axis, Ratio, SweepGrid};
use vstd::prelude::*;

verus! {

#[derive(Clone, Debug, PartialEq, Eq, Hash)]
pub struct DsaIndexCacheAppendKernelConfig {
    pub backends: Vec<&'static str>,
    pub gpu_name: String,
    pub index_dim: Dim,
    pub block_size: u32,
    pub quant_block_size: u32,
    pub input_dtype: DType,
    pub cache_dtype: DType,
    pub scale_format: String,
    pub cache_format: String,
}

impl KernelConfig for DsaIndexCacheAppendKernelConfig {
    const BACKENDS_FIELD: &'static str = "DsaIndexCacheAppendKernelConfig.backends";

    open spec fn candidates(&self) -> Seq<&'static str> {
        self.backends@
    }

    open spec fn gpu(&self) -> Seq<char> {
        self.gpu_name@
    }

    open spec fn compute(&self) -> Option<DType> {
        Some(self.input_dtype)
    }

    open spec fn kv(&self) -> Option<DType> {
        Some(self.cache_dtype)
    }

    open spec fn description(&self) -> Seq<(Seq<char>, ConfigTerm)> {
        seq![
            ("backends"@, ConfigTerm::Names(self.backends@)),
            ("gpu_name"@, ConfigTerm::Text(self.gpu_name@)),
            ("index_dim"@, ConfigTerm::Dimension(self.index_dim@)),
            ("block_size"@, ConfigTerm::Number(self.block_size as nat)),
            ("quant_block_size"@, ConfigTerm::Number(self.quant_block_size as nat)),
            ("input_dtype"@, ConfigTerm::Precision(self.input_dtype)),
            ("cache_dtype"@, ConfigTerm::Precision(self.cache_dtype)),
            ("scale_format"@, ConfigTerm::Text(self.scale_format@)),
            ("cache_format"@, ConfigTerm::Text(self.cache_format@)),
        ]
    }

    fn backends(&self) -> (r: &Vec<&'static str>) {
        &self.backends
    }

    fn gpu_name(&self) -> (r: &str) {
        self.gpu_name.as_str()
    }

    fn compute_dtype(&self) -> (r: Option<DType>) {
        Some(self.input_dtype)
    }

    fn kv_dtype(&self) -> (r: Option<DType>) {
        Some(self.cache_dtype)
    }

    fn describe_config(&self) -> (r: Vec<ConfigField>) {
        let r: Vec<ConfigField> = vec![
            field("backends", names_of(&self.backends)),
            field("gpu_name", text_of(self.gpu_name.as_str())),
            field("index_dim", dimension_of(&self.index_dim)),
            field("block_size", number_of(self.block_size)),
            field("quant_block_size", number_of(self.quant_block_size)),
            field("input_dtype", precision_of(self.input_dtype)),
            field("cache_dtype", precision_of(self.cache_dtype)),
            field("scale_format", text_of(self.scale_format.as_str())),
            field("cache_format", text_of(self.cache_format.as_str())),
        ];
        assert(fields_view(r@) =~= self.description());
        r
    }
}

#[derive(Clone, Copy, Debug, PartialEq, Eq, Hash)]
pub struct DsaIndexCacheAppendKernelInput {
    pub num_tokens: u32,
}

impl SweepCoords for DsaIndexCacheAppendKernelInput {
    open spec fn well_shaped(&self) -> bool {
        true
    }

    open spec fn position(&self) -> Seq<Ratio> {
        seq![whole(self.num_tokens as int)]
    }

    open spec fn axis_names() -> Seq<Seq<char>> {
        seq!["num_tokens"@]
    }

    fn is_well_shaped(&self) -> (r: bool) {
        true
    }

    fn coords(&self) -> (r: Vec<Ratio>) {
        let r: Vec<Ratio> = vec![Ratio::from_whole(self.num_tokens)];
        assert(r@ =~= self.position());
        r
    }

    fn coord_field_names() -> (r: Vec<&'static str>) {
        let r: Vec<&'static str> = vec!["num_tokens"];
        assert(r@.map_values(|name: &'static str| name@) =~= Self::axis_names());
        r
    }
}

pub struct DsaIndexCacheAppendSpec;

impl KernelSpec for DsaIndexCacheAppendSpec {
    type Config = DsaIndexCacheAppendKernelConfig;

    type Input = DsaIndexCacheAppendKernelInput;

    const KIND: KernelKind = "dsa_index_cache_append";

    open spec fn admits(config: DsaIndexCacheAppendKernelConfig) -> bool {
        true
    }

    open spec fn axes(config: DsaIndexCacheAppendKernelConfig, tokens: Seq<u32>) -> Seq<Seq<u32>> {
        seq![chained(chained(pow2_points(0, 8), seq![264u32, 265]), tokens)]
    }

    open spec fn units(axes: Seq<Seq<u32>>) -> Seq<u32> {
        whole_units(axes)
    }

    open spec fn table(backend: Seq<char>) -> CacheKind {
        CacheKind::Cache1DLinear
    }

    open spec fn masks() -> bool {
        false
    }

    open spec fn judges(config: DsaIndexCacheAppendKernelConfig, cell: Seq<u32>) -> bool {
        true
    }

    open spec fn infeasible(config: DsaIndexCacheAppendKernelConfig, cell: Seq<u32>) -> bool {
        false
    }

    open spec fn table_position(
        config: DsaIndexCacheAppendKernelConfig,
        input: DsaIndexCacheAppendKernelInput,
    ) -> Seq<Ratio> {
        input.position()
    }

    open spec fn answers(
        config: DsaIndexCacheAppendKernelConfig,
        input: DsaIndexCacheAppendKernelInput,
    ) -> bool {
        input.well_shaped()
    }

    fn profile_kind() -> (r: KernelKind) {
        Self::KIND
    }

    fn can_sweep(config: &DsaIndexCacheAppendKernelConfig) -> (r: bool) {
        true
    }

    fn sweep_grid(config: &DsaIndexCacheAppendKernelConfig, tokens: &Vec<u32>) -> (r: SweepGrid) {
        let wave: Vec<u32> = vec![264, 265];
        assert(wave@ =~= seq![264u32, 265]);
        let a0: Vec<u32> = Axis::chain(Axis::chain(Axis::pow2(0, 8), &wave), tokens);
        let r = SweepGrid::new(vec![a0]);
        proof {
            assert(r.points() =~= Self::axes(*config, tokens@));
            assert(r.scale() =~= whole_units(r.points()));
        }
        r
    }

    fn cache_kind(backend: &str) -> (r: CacheKind) {
        CacheKind::Cache1DLinear
    }

    fn has_mask() -> (r: bool) {
        false
    }

    fn is_infeasible(config: &DsaIndexCacheAppendKernelConfig, cell: &Vec<u32>) -> (r: bool) {
        false
    }

    fn can_answer(
        config: &DsaIndexCacheAppendKernelConfig,
        input: &DsaIndexCacheAppendKernelInput,
    ) -> (r: bool) {
        input.is_well_shaped()
    }

    fn cache_coords(
        config: &DsaIndexCacheAppendKernelConfig,
        input: &DsaIndexCacheAppendKernelInput,
    ) -> (r: Vec<Ratio>) {
        input.coords()
    }

    proof fn sweep_fits_table(
        config: DsaIndexCacheAppendKernelConfig,
        tokens: Seq<u32>,
        backend: Seq<char>,
    ) {
    }

    proof fn sweep_is_judged(
        config: DsaIndexCacheAppendKernelConfig,
        tokens: Seq<u32>,
        index: nat,
    ) {
    }

    proof fn queries_fit_table(
        config: DsaIndexCacheAppendKernelConfig,
        input: DsaIndexCacheAppendKernelInput,
        backend: Seq<char>,
    ) {
    }
}

impl CellPayloads for DsaIndexCacheAppendSpec {
    open spec fn covers(config: DsaIndexCacheAppendKernelConfig, cell: Seq<u32>) -> bool {
        cell.len() == 1
    }

    open spec fn enumerates(config: DsaIndexCacheAppendKernelConfig) -> bool {
        true
    }

    open spec fn fields(
        config: DsaIndexCacheAppendKernelConfig,
        cell: Seq<u32>,
        backend: Seq<char>,
    ) -> Map<Seq<char>, WireValue> {
        Map::<Seq<char>, WireValue>::empty()
            .insert("num_tokens"@, WireValue::Number(cell[0] as nat))
            .insert("index_dim"@, WireValue::Number(config.index_dim@.fold() as nat))
            .insert("block_size"@, WireValue::Number(config.block_size as nat))
            .insert("quant_block_size"@, WireValue::Number(config.quant_block_size as nat))
            .insert("input_dtype"@, WireValue::Text(dtype_text(config.input_dtype)))
            .insert("cache_dtype"@, WireValue::Text(dtype_text(config.cache_dtype)))
            .insert("scale_format"@, WireValue::Text(config.scale_format@))
            .insert("cache_format"@, WireValue::Text(config.cache_format@))
            .insert("backend"@, WireValue::Text(backend))
    }

    fn can_enumerate(config: &DsaIndexCacheAppendKernelConfig) -> (r: bool) {
        true
    }

    fn cell_payload(
        config: &DsaIndexCacheAppendKernelConfig,
        cell: &Vec<u32>,
        backend: &str,
    ) -> (r: ArgsPayload) {
        ArgsPayload::new()
            .with("num_tokens", number_value(cell[0]))
            .with("index_dim", number_value(config.index_dim.get()))
            .with("block_size", number_value(config.block_size))
            .with("quant_block_size", number_value(config.quant_block_size))
            .with("input_dtype", text_value(config.input_dtype.as_str()))
            .with("cache_dtype", text_value(config.cache_dtype.as_str()))
            .with("scale_format", text_value(config.scale_format.as_str()))
            .with("cache_format", text_value(config.cache_format.as_str()))
            .with("backend", text_value(backend))
    }

    proof fn sweep_is_covered(
        config: DsaIndexCacheAppendKernelConfig,
        tokens: Seq<u32>,
        index: nat,
    ) {
        cell_on_axes(Self::axes(config, tokens), index);
    }

    proof fn fields_name_backend(
        config: DsaIndexCacheAppendKernelConfig,
        cell: Seq<u32>,
        backend: Seq<char>,
    ) {
    }

    open spec fn describes(
        config: DsaIndexCacheAppendKernelConfig,
        fields: Map<Seq<char>, WireValue>,
        input: DsaIndexCacheAppendKernelInput,
    ) -> bool {
        number_at(fields, "num_tokens"@) == input.num_tokens
    }

    open spec fn occurs(config: DsaIndexCacheAppendKernelConfig, cell: Seq<u32>) -> bool {
        true
    }

    open spec fn kept_back() -> Set<Seq<char>> {
        set!["backends"@, "gpu_name"@]
    }

    proof fn payload_stands_at_its_cell(
        config: DsaIndexCacheAppendKernelConfig,
        tokens: Seq<u32>,
        index: nat,
        backend: Seq<char>,
        input: DsaIndexCacheAppendKernelInput,
    ) {
        cell_on_axes(Self::axes(config, tokens), index);
        reveal_strlit("num_tokens");
        reveal_strlit("index_dim");
        reveal_strlit("block_size");
        reveal_strlit("quant_block_size");
        reveal_strlit("input_dtype");
        reveal_strlit("cache_dtype");
        reveal_strlit("scale_format");
        reveal_strlit("cache_format");
        reveal_strlit("backend");
        assert("num_tokens"@.len() == 10 && "num_tokens"@[0] == 'n');
        assert("index_dim"@.len() == 9);
        assert("block_size"@.len() == 10 && "block_size"@[0] == 'b');
        assert("quant_block_size"@.len() == 16);
        assert("input_dtype"@.len() == 11);
        assert("cache_dtype"@.len() == 11);
        assert("scale_format"@.len() == 12);
        assert("cache_format"@.len() == 12);
        assert("backend"@.len() == 7);
    }

    proof fn payload_carries_config(
        config: DsaIndexCacheAppendKernelConfig,
        cell: Seq<u32>,
        backend: Seq<char>,
        i: int,
    ) {
        reveal_strlit("index_dim");
        reveal_strlit("block_size");
        reveal_strlit("quant_block_size");
        reveal_strlit("input_dtype");
        reveal_strlit("cache_dtype");
        reveal_strlit("scale_format");
        reveal_strlit("cache_format");
        reveal_strlit("backend");
        assert("index_dim"@.len() == 9);
        assert("block_size"@.len() == 10);
        assert("quant_block_size"@.len() == 16);
        assert("input_dtype"@.len() == 11 && "input_dtype"@[0] == 'i');
        assert("cache_dtype"@.len() == 11 && "cache_dtype"@[0] == 'c');
        assert("scale_format"@.len() == 12 && "scale_format"@[0] == 's');
        assert("cache_format"@.len() == 12 && "cache_format"@[0] == 'c');
        assert("backend"@.len() == 7);
        let fields = Self::fields(config, cell, backend);
        let terms = config.description();
        assert(carries(fields, terms[2]));
        assert(carries(fields, terms[3]));
        assert(carries(fields, terms[4]));
        assert(carries(fields, terms[5]));
        assert(carries(fields, terms[6]));
        assert(carries(fields, terms[7]));
        assert(carries(fields, terms[8]));
    }

    proof fn described_alike_is_profiled_alike(
        a: DsaIndexCacheAppendKernelConfig,
        b: DsaIndexCacheAppendKernelConfig,
        tokens: Seq<u32>,
        cell: Seq<u32>,
        backend: Seq<char>,
    ) {
        let (x, y) = (a.description(), b.description());
        assert(x[0] == y[0]);
        assert(x[1] == y[1]);
        assert(x[2] == y[2]);
        assert(x[3] == y[3]);
        assert(x[4] == y[4]);
        assert(x[5] == y[5]);
        assert(x[6] == y[6]);
        assert(x[7] == y[7]);
        assert(x[8] == y[8]);
    }
}

/// The kernel computes in the precision that is described as `input_dtype` and keeps its
/// cache in the precision that is described as `cache_dtype`.
pub proof fn precisions_are_described(config: DsaIndexCacheAppendKernelConfig)
    ensures
        config.compute() matches Some(precision) && config.description()[5] == (
            "input_dtype"@,
            ConfigTerm::Precision(precision),
        ),
        config.kv() matches Some(precision) && config.description()[6] == (
            "cache_dtype"@,
            ConfigTerm::Precision(precision),
        ),
{
}

} // verus!
