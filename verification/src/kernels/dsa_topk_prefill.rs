//! Prefill top-k selection over padded rows of logits.
//!
//! Cells with more queries than keys are no causal shape, and cells whose padded logits
//! would not fit the largest profiling allocation cannot be measured; both are left out.

use crate::bridge::payload::{
    dtype_text, number_value, text_value, ArgsPayload, DType, KernelKind, WireValue,
};
use crate::cache::{CacheKind, Extrapolation};
use crate::kernels::config::{
    field, fields_view, names_of, number_of, precision_of, text_of, ConfigField, ConfigTerm,
    KernelConfig,
};
use crate::kernels::engine::{
    carries, number_at, whole_units, CellPayloads, KernelSpec, SweepCoords,
};
use crate::kernels::gdn_causal_conv_prefill::product_of;
use crate::sweep::{cell_on_axes, whole, Axis, Ratio, SweepGrid};
use vstd::prelude::*;

verus! {

/// Bytes of the largest single profiling allocation.
pub const MAX_PROFILE_ALLOCATION_BYTES: u64 = 34359738368;

/// Whether the padded row of `num_keys` logits has a width.
pub open spec fn stride_fits(num_keys: int) -> bool {
    num_keys <= u32::MAX - 511
}

/// The width of a row of logits: padded to whole tiles of 256, and one tile more.
pub open spec fn padded_stride(num_keys: int) -> int {
    (num_keys + 255) / 256 * 256 + 256
}

/// The width of a row of logits: padded to whole tiles of 256, and one tile more.
pub fn logits_row_stride(num_keys: u32) -> (r: u32)
    requires
        stride_fits(num_keys as int),
    ensures
        r == padded_stride(num_keys as int),
{
    (num_keys + 255) / 256 * 256 + 256
}

#[derive(Clone, Debug, PartialEq, Eq, Hash)]
pub struct DsaTopkPrefillKernelConfig {
    pub backends: Vec<&'static str>,
    pub gpu_name: String,
    pub num_sequences: u32,
    pub top_k: u32,
    pub logits_dtype: DType,
    pub index_dtype: String,
    pub span_mode: String,
}

impl KernelConfig for DsaTopkPrefillKernelConfig {
    const BACKENDS_FIELD: &'static str = "DsaTopkPrefillKernelConfig.backends";

    open spec fn candidates(&self) -> Seq<&'static str> {
        self.backends@
    }

    open spec fn gpu(&self) -> Seq<char> {
        self.gpu_name@
    }

    open spec fn compute(&self) -> Option<DType> {
        Some(self.logits_dtype)
    }

    open spec fn kv(&self) -> Option<DType> {
        None
    }

    open spec fn description(&self) -> Seq<(Seq<char>, ConfigTerm)> {
        seq![
            ("backends"@, ConfigTerm::Names(self.backends@)),
            ("gpu_name"@, ConfigTerm::Text(self.gpu_name@)),
            ("num_sequences"@, ConfigTerm::Number(self.num_sequences as nat)),
            ("top_k"@, ConfigTerm::Number(self.top_k as nat)),
            ("logits_dtype"@, ConfigTerm::Precision(self.logits_dtype)),
            ("index_dtype"@, ConfigTerm::Text(self.index_dtype@)),
            ("span_mode"@, ConfigTerm::Text(self.span_mode@)),
        ]
    }

    fn backends(&self) -> (r: &Vec<&'static str>) {
        &self.backends
    }

    fn gpu_name(&self) -> (r: &str) {
        self.gpu_name.as_str()
    }

    fn compute_dtype(&self) -> (r: Option<DType>) {
        Some(self.logits_dtype)
    }

    fn kv_dtype(&self) -> (r: Option<DType>) {
        None
    }

    fn describe_config(&self) -> (r: Vec<ConfigField>) {
        let r: Vec<ConfigField> = vec![
            field("backends", names_of(&self.backends)),
            field("gpu_name", text_of(self.gpu_name.as_str())),
            field("num_sequences", number_of(self.num_sequences)),
            field("top_k", number_of(self.top_k)),
            field("logits_dtype", precision_of(self.logits_dtype)),
            field("index_dtype", text_of(self.index_dtype.as_str())),
            field("span_mode", text_of(self.span_mode.as_str())),
        ];
        assert(fields_view(r@) =~= self.description());
        r
    }
}

#[derive(Clone, Copy, Debug, PartialEq, Eq, Hash)]
pub struct DsaTopkPrefillKernelInput {
    pub num_queries: u32,
    pub num_keys: u32,
}

impl SweepCoords for DsaTopkPrefillKernelInput {
    open spec fn well_shaped(&self) -> bool {
        true
    }

    open spec fn position(&self) -> Seq<Ratio> {
        seq![whole(self.num_queries as int), whole(self.num_keys as int)]
    }

    open spec fn axis_names() -> Seq<Seq<char>> {
        seq!["num_queries"@, "num_keys"@]
    }

    fn is_well_shaped(&self) -> (r: bool) {
        true
    }

    fn coords(&self) -> (r: Vec<Ratio>) {
        let r: Vec<Ratio> = vec![Ratio::from_whole(self.num_queries), Ratio::from_whole(self.num_keys)];
        assert(r@ =~= self.position());
        r
    }

    fn coord_field_names() -> (r: Vec<&'static str>) {
        let r: Vec<&'static str> = vec!["num_queries", "num_keys"];
        assert(r@.map_values(|name: &'static str| name@) =~= Self::axis_names());
        r
    }
}

pub struct DsaTopkPrefillSpec;

impl KernelSpec for DsaTopkPrefillSpec {
    type Config = DsaTopkPrefillKernelConfig;

    type Input = DsaTopkPrefillKernelInput;

    const KIND: KernelKind = "dsa_topk_prefill";

    open spec fn admits(config: DsaTopkPrefillKernelConfig) -> bool {
        true
    }

    open spec fn axes(config: DsaTopkPrefillKernelConfig, tokens: Seq<u32>) -> Seq<Seq<u32>> {
        seq![
            seq![
                1u32, 2, 4, 8, 16, 32, 64, 127, 128, 129, 131, 132, 133, 255, 256, 257, 512, 1024,
                1448, 2047, 2048, 4096, 8192, 16384, 32768, 65536,
            ],
            seq![
                1u32, 2, 4, 8, 16, 32, 64, 128, 255, 256, 257, 512, 1024, 1448, 2047, 2048, 2049,
                4096, 8192, 16384, 32768, 65536, 131072, 262144, 524288, 1048576,
            ],
        ]
    }

    open spec fn units(axes: Seq<Seq<u32>>) -> Seq<u32> {
        whole_units(axes)
    }

    open spec fn table(backend: Seq<char>) -> CacheKind {
        CacheKind::Cache2DLinear(Extrapolation::Product)
    }

    open spec fn masks() -> bool {
        true
    }

    open spec fn judges(config: DsaTopkPrefillKernelConfig, cell: Seq<u32>) -> bool {
        cell.len() == 2 && stride_fits(cell[1] as int)
    }

    open spec fn infeasible(config: DsaTopkPrefillKernelConfig, cell: Seq<u32>) -> bool {
        cell[0] > cell[1] || cell[0] * padded_stride(cell[1] as int) * 4
            > MAX_PROFILE_ALLOCATION_BYTES
    }

    open spec fn table_position(
        config: DsaTopkPrefillKernelConfig,
        input: DsaTopkPrefillKernelInput,
    ) -> Seq<Ratio> {
        input.position()
    }

    open spec fn answers(
        config: DsaTopkPrefillKernelConfig,
        input: DsaTopkPrefillKernelInput,
    ) -> bool {
        input.well_shaped()
    }

    fn profile_kind() -> (r: KernelKind) {
        Self::KIND
    }

    fn can_sweep(config: &DsaTopkPrefillKernelConfig) -> (r: bool) {
        true
    }

    fn sweep_grid(config: &DsaTopkPrefillKernelConfig, tokens: &Vec<u32>) -> (r: SweepGrid) {
        let a0: Vec<u32> = Axis::values(vec![
            1, 2, 4, 8, 16, 32, 64, 127, 128, 129, 131, 132, 133, 255, 256, 257, 512, 1024, 1448,
            2047, 2048, 4096, 8192, 16384, 32768, 65536,
        ]);
        let a1: Vec<u32> = Axis::values(vec![
            1, 2, 4, 8, 16, 32, 64, 128, 255, 256, 257, 512, 1024, 1448, 2047, 2048, 2049, 4096,
            8192, 16384, 32768, 65536, 131072, 262144, 524288, 1048576,
        ]);
        let r = SweepGrid::new(vec![a0, a1]);
        proof {
            assert(r.points() =~= Self::axes(*config, tokens@));
            assert(r.scale() =~= whole_units(r.points()));
        }
        r
    }

    fn cache_kind(backend: &str) -> (r: CacheKind) {
        CacheKind::Cache2DLinear(Extrapolation::Product)
    }

    fn has_mask() -> (r: bool) {
        true
    }

    fn is_infeasible(config: &DsaTopkPrefillKernelConfig, cell: &Vec<u32>) -> (r: bool) {
        let stride: u32 = logits_row_stride(cell[1]);
        let padded: u64 = product_of(cell[0], stride);
        let bytes: u128 = padded as u128 * 4;
        cell[0] > cell[1] || bytes > MAX_PROFILE_ALLOCATION_BYTES as u128
    }

    fn can_answer(
        config: &DsaTopkPrefillKernelConfig,
        input: &DsaTopkPrefillKernelInput,
    ) -> (r: bool) {
        input.is_well_shaped()
    }

    fn cache_coords(
        config: &DsaTopkPrefillKernelConfig,
        input: &DsaTopkPrefillKernelInput,
    ) -> (r: Vec<Ratio>) {
        input.coords()
    }

    proof fn sweep_fits_table(
        config: DsaTopkPrefillKernelConfig,
        tokens: Seq<u32>,
        backend: Seq<char>,
    ) {
    }

    proof fn sweep_is_judged(config: DsaTopkPrefillKernelConfig, tokens: Seq<u32>, index: nat) {
        cell_on_axes(Self::axes(config, tokens), index);
    }

    proof fn queries_fit_table(
        config: DsaTopkPrefillKernelConfig,
        input: DsaTopkPrefillKernelInput,
        backend: Seq<char>,
    ) {
    }
}

impl CellPayloads for DsaTopkPrefillSpec {
    open spec fn covers(config: DsaTopkPrefillKernelConfig, cell: Seq<u32>) -> bool {
        cell.len() == 2 && stride_fits(cell[1] as int)
    }

    open spec fn enumerates(config: DsaTopkPrefillKernelConfig) -> bool {
        true
    }

    open spec fn fields(
        config: DsaTopkPrefillKernelConfig,
        cell: Seq<u32>,
        backend: Seq<char>,
    ) -> Map<Seq<char>, WireValue> {
        Map::<Seq<char>, WireValue>::empty()
            .insert("num_queries"@, WireValue::Number(cell[0] as nat))
            .insert("num_keys"@, WireValue::Number(cell[1] as nat))
            .insert("num_sequences"@, WireValue::Number(config.num_sequences as nat))
            .insert("top_k"@, WireValue::Number(config.top_k as nat))
            .insert("logits_row_stride"@, WireValue::Number(padded_stride(cell[1] as int) as nat))
            .insert("logits_dtype"@, WireValue::Text(dtype_text(config.logits_dtype)))
            .insert("index_dtype"@, WireValue::Text(config.index_dtype@))
            .insert("span_mode"@, WireValue::Text(config.span_mode@))
            .insert("backend"@, WireValue::Text(backend))
    }

    fn can_enumerate(config: &DsaTopkPrefillKernelConfig) -> (r: bool) {
        true
    }

    fn cell_payload(
        config: &DsaTopkPrefillKernelConfig,
        cell: &Vec<u32>,
        backend: &str,
    ) -> (r: ArgsPayload) {
        ArgsPayload::new()
            .with("num_queries", number_value(cell[0]))
            .with("num_keys", number_value(cell[1]))
            .with("num_sequences", number_value(config.num_sequences))
            .with("top_k", number_value(config.top_k))
            .with("logits_row_stride", number_value(logits_row_stride(cell[1])))
            .with("logits_dtype", text_value(config.logits_dtype.as_str()))
            .with("index_dtype", text_value(config.index_dtype.as_str()))
            .with("span_mode", text_value(config.span_mode.as_str()))
            .with("backend", text_value(backend))
    }

    proof fn sweep_is_covered(config: DsaTopkPrefillKernelConfig, tokens: Seq<u32>, index: nat) {
        cell_on_axes(Self::axes(config, tokens), index);
    }

    proof fn fields_name_backend(
        config: DsaTopkPrefillKernelConfig,
        cell: Seq<u32>,
        backend: Seq<char>,
    ) {
    }

    open spec fn describes(
        config: DsaTopkPrefillKernelConfig,
        fields: Map<Seq<char>, WireValue>,
        input: DsaTopkPrefillKernelInput,
    ) -> bool {
        &&& number_at(fields, "num_queries"@) == input.num_queries
        &&& number_at(fields, "num_keys"@) == input.num_keys
    }

    open spec fn occurs(config: DsaTopkPrefillKernelConfig, cell: Seq<u32>) -> bool {
        true
    }

    open spec fn kept_back() -> Set<Seq<char>> {
        set!["backends"@, "gpu_name"@]
    }

    proof fn payload_stands_at_its_cell(
        config: DsaTopkPrefillKernelConfig,
        tokens: Seq<u32>,
        index: nat,
        backend: Seq<char>,
        input: DsaTopkPrefillKernelInput,
    ) {
        cell_on_axes(Self::axes(config, tokens), index);
        reveal_strlit("num_queries");
        reveal_strlit("num_keys");
        reveal_strlit("num_sequences");
        reveal_strlit("top_k");
        reveal_strlit("logits_row_stride");
        reveal_strlit("logits_dtype");
        reveal_strlit("index_dtype");
        reveal_strlit("span_mode");
        reveal_strlit("backend");
        assert("num_queries"@.len() == 11 && "num_queries"@[0] == 'n');
        assert("num_keys"@.len() == 8);
        assert("num_sequences"@.len() == 13);
        assert("top_k"@.len() == 5);
        assert("logits_row_stride"@.len() == 17);
        assert("logits_dtype"@.len() == 12);
        assert("index_dtype"@.len() == 11 && "index_dtype"@[0] == 'i');
        assert("span_mode"@.len() == 9);
        assert("backend"@.len() == 7);
    }

    proof fn payload_carries_config(
        config: DsaTopkPrefillKernelConfig,
        cell: Seq<u32>,
        backend: Seq<char>,
        i: int,
    ) {
        reveal_strlit("num_sequences");
        reveal_strlit("top_k");
        reveal_strlit("logits_row_stride");
        reveal_strlit("logits_dtype");
        reveal_strlit("index_dtype");
        reveal_strlit("span_mode");
        reveal_strlit("backend");
        assert("num_sequences"@.len() == 13);
        assert("top_k"@.len() == 5);
        assert("logits_row_stride"@.len() == 17);
        assert("logits_dtype"@.len() == 12);
        assert("index_dtype"@.len() == 11);
        assert("span_mode"@.len() == 9);
        assert("backend"@.len() == 7);
        let fields = Self::fields(config, cell, backend);
        let terms = config.description();
        assert(carries(fields, terms[2]));
        assert(carries(fields, terms[3]));
        assert(carries(fields, terms[4]));
        assert(carries(fields, terms[5]));
        assert(carries(fields, terms[6]));
    }

    proof fn described_alike_is_profiled_alike(
        a: DsaTopkPrefillKernelConfig,
        b: DsaTopkPrefillKernelConfig,
        tokens: Seq<u32>,
        cell: Seq<u32>,
        backend: Seq<char>,
    ) {
        let (x, y) = (a.description(), b.description());
        assert(x[0] == y[0]);
        assert(x[1] == y[1]);
        assert(x[2] == y[2]);
        assert(x[3] == y[3]);
        assert(x[4] == y[4]);
        assert(x[5] == y[5]);
        assert(x[6] == y[6]);
    }
}

/// A row of logits is padded to whole tiles of 256 and by one more: it is whole tiles
/// wide, and a tile is left behind the last key, and no second one.
pub proof fn rows_of_logits_are_padded(
    config: DsaTopkPrefillKernelConfig,
    cell: Seq<u32>,
    backend: Seq<char>,
)
    ensures
        number_at(DsaTopkPrefillSpec::fields(config, cell, backend), "logits_row_stride"@)
            % 256 == 0,
        cell[1] + 256 <= number_at(
            DsaTopkPrefillSpec::fields(config, cell, backend),
            "logits_row_stride"@,
        ) < cell[1] + 512,
{
    reveal_strlit("logits_row_stride");
    reveal_strlit("logits_dtype");
    reveal_strlit("index_dtype");
    reveal_strlit("span_mode");
    reveal_strlit("backend");
    assert("logits_row_stride"@.len() == 17);
    assert("logits_dtype"@.len() == 12);
    assert("index_dtype"@.len() == 11);
    assert("span_mode"@.len() == 9);
    assert("backend"@.len() == 7);
}

/// The kernel computes in the precision that is described as `logits_dtype` and names no
/// precision that it keeps its cache in.
pub proof fn precisions_are_described(config: DsaTopkPrefillKernelConfig)
    ensures
        config.compute() matches Some(precision) && config.description()[4] == (
            "logits_dtype"@,
            ConfigTerm::Precision(precision),
        ),
        config.kv() is None,
{
}

} // verus!
