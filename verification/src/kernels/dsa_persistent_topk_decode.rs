//! Decode top-k selection over padded rows of logits.
//!
//! A step of `next_n` rows per request needs at least `next_n - 1` context rows. The
//! padded logits block is allocated whole, so a batch whose block would not fit the
//! largest profiling allocation is left out.

use crate::bridge::payload::{
    dtype_text, number_value, text_value, ArgsPayload, DType, KernelKind, WireValue,
};
use crate::cache::{CacheKind, Extrapolation};
use crate::dims::Dim;
use crate::kernels::config::{
    dimension_of, field, fields_view, names_of, number_of, precision_of, text_of, ConfigField,
    ConfigTerm, KernelConfig,
};
use crate::kernels::engine::{
    carries, number_at, whole_units, CellPayloads, KernelSpec, SweepCoords,
};
use crate::sweep::{cell_on_axes, whole, Axis, Ratio, SweepGrid};
use vstd::prelude::*;

verus! {

/// Bytes of the largest single profiling allocation.
pub const MAX_PROFILE_ALLOCATION_BYTES: u64 = 34359738368;

#[derive(Clone, Debug, PartialEq, Eq, Hash)]
pub struct DsaPersistentTopkDecodeKernelConfig {
    pub backends: Vec<&'static str>,
    pub gpu_name: String,
    pub next_n: u32,
    pub max_model_len: Dim,
    pub top_k: u32,
    pub logits_row_stride: Dim,
    pub logits_dtype: DType,
    pub index_dtype: String,
    pub context_mode: String,
}

impl KernelConfig for DsaPersistentTopkDecodeKernelConfig {
    const BACKENDS_FIELD: &'static str = "DsaPersistentTopkDecodeKernelConfig.backends";

    open spec fn candidates(&self) -> Seq<&'static str> {
        self.backends@
    }

    open spec fn gpu(&self) -> Seq<char> {
        self.gpu_name@
    }

    open spec fn compute(&self) -> Option<DType> {
        Some(self.logits_dtype)
    }

    open spec fn kv(&self) -> Option<DType> {
        None
    }

    open spec fn description(&self) -> Seq<(Seq<char>, ConfigTerm)> {
        seq![
            ("backends"@, ConfigTerm::Names(self.backends@)),
            ("gpu_name"@, ConfigTerm::Text(self.gpu_name@)),
            ("next_n"@, ConfigTerm::Number(self.next_n as nat)),
            ("max_model_len"@, ConfigTerm::Dimension(self.max_model_len@)),
            ("top_k"@, ConfigTerm::Number(self.top_k as nat)),
            ("logits_row_stride"@, ConfigTerm::Dimension(self.logits_row_stride@)),
            ("logits_dtype"@, ConfigTerm::Precision(self.logits_dtype)),
            ("index_dtype"@, ConfigTerm::Text(self.index_dtype@)),
            ("context_mode"@, ConfigTerm::Text(self.context_mode@)),
        ]
    }

    fn backends(&self) -> (r: &Vec<&'static str>) {
        &self.backends
    }

    fn gpu_name(&self) -> (r: &str) {
        self.gpu_name.as_str()
    }

    fn compute_dtype(&self) -> (r: Option<DType>) {
        Some(self.logits_dtype)
    }

    fn kv_dtype(&self) -> (r: Option<DType>) {
        None
    }

    fn describe_config(&self) -> (r: Vec<ConfigField>) {
        let r: Vec<ConfigField> = vec![
            field("backends", names_of(&self.backends)),
            field("gpu_name", text_of(self.gpu_name.as_str())),
            field("next_n", number_of(self.next_n)),
            field("max_model_len", dimension_of(&self.max_model_len)),
            field("top_k", number_of(self.top_k)),
            field("logits_row_stride", dimension_of(&self.logits_row_stride)),
            field("logits_dtype", precision_of(self.logits_dtype)),
            field("index_dtype", text_of(self.index_dtype.as_str())),
            field("context_mode", text_of(self.context_mode.as_str())),
        ];
        assert(fields_view(r@) =~= self.description());
        r
    }
}

#[derive(Clone, Copy, Debug, PartialEq, Eq, Hash)]
pub struct DsaPersistentTopkDecodeKernelInput {
    pub batch_size: u32,
    pub context_len: u32,
}

impl SweepCoords for DsaPersistentTopkDecodeKernelInput {
    open spec fn well_shaped(&self) -> bool {
        true
    }

    open spec fn position(&self) -> Seq<Ratio> {
        seq![whole(self.batch_size as int), whole(self.context_len as int)]
    }

    open spec fn axis_names() -> Seq<Seq<char>> {
        seq!["batch_size"@, "context_len"@]
    }

    fn is_well_shaped(&self) -> (r: bool) {
        true
    }

    fn coords(&self) -> (r: Vec<Ratio>) {
        let r: Vec<Ratio> = vec![Ratio::from_whole(self.batch_size), Ratio::from_whole(self.context_len)];
        assert(r@ =~= self.position());
        r
    }

    fn coord_field_names() -> (r: Vec<&'static str>) {
        let r: Vec<&'static str> = vec!["batch_size", "context_len"];
        assert(r@.map_values(|name: &'static str| name@) =~= Self::axis_names());
        r
    }
}

pub struct DsaPersistentTopkDecodeSpec;

impl KernelSpec for DsaPersistentTopkDecodeSpec {
    type Config = DsaPersistentTopkDecodeKernelConfig;

    type Input = DsaPersistentTopkDecodeKernelInput;

    const KIND: KernelKind = "dsa_persistent_topk_decode";

    open spec fn profiled_as() -> Seq<char> {
        Self::KIND@
    }

    open spec fn admits(config: DsaPersistentTopkDecodeKernelConfig) -> bool {
        true
    }

    open spec fn axes(
        config: DsaPersistentTopkDecodeKernelConfig,
        tokens: Seq<u32>,
    ) -> Seq<Seq<u32>> {
        seq![
            seq![
                1u32, 2, 4, 8, 12, 15, 16, 17, 23, 24, 31, 32, 33, 39, 46, 48, 64, 65, 66, 67, 92,
                96, 127, 128, 129, 130, 131, 132, 133, 197, 198, 199, 255, 256,
            ],
            seq![
                0u32, 1, 2, 128, 256, 512, 1024, 2046, 2047, 2048, 2049, 2050, 2897, 4096, 5792,
                8191, 8192, 8193, 16384, 32767, 32768, 32769, 65536, 131072, 262144, 524288, 1048576,
            ],
        ]
    }

    open spec fn units(axes: Seq<Seq<u32>>) -> Seq<u32> {
        whole_units(axes)
    }

    open spec fn table(backend: Seq<char>) -> CacheKind {
        CacheKind::Cache2DLinear(Extrapolation::Product)
    }

    open spec fn masks() -> bool {
        true
    }

    open spec fn judges(config: DsaPersistentTopkDecodeKernelConfig, cell: Seq<u32>) -> bool {
        cell.len() == 2
    }

    open spec fn infeasible(config: DsaPersistentTopkDecodeKernelConfig, cell: Seq<u32>) -> bool {
        cell[1] < config.next_n - 1 || cell[1] > config.max_model_len@.fold() || cell[0]
            * padded_row_bytes(config) > MAX_PROFILE_ALLOCATION_BYTES
    }

    open spec fn table_position(
        config: DsaPersistentTopkDecodeKernelConfig,
        input: DsaPersistentTopkDecodeKernelInput,
    ) -> Seq<Ratio> {
        input.position()
    }

    open spec fn answers(
        config: DsaPersistentTopkDecodeKernelConfig,
        input: DsaPersistentTopkDecodeKernelInput,
    ) -> bool {
        input.well_shaped()
    }

    fn profile_kind() -> (r: KernelKind) {
        Self::KIND
    }

    fn can_sweep(config: &DsaPersistentTopkDecodeKernelConfig) -> (r: bool) {
        true
    }

    fn sweep_grid(
        config: &DsaPersistentTopkDecodeKernelConfig,
        tokens: &Vec<u32>,
    ) -> (r: SweepGrid) {
        let a0: Vec<u32> = Axis::values(vec![
            1, 2, 4, 8, 12, 15, 16, 17, 23, 24, 31, 32, 33, 39, 46, 48, 64, 65, 66, 67, 92, 96,
            127, 128, 129, 130, 131, 132, 133, 197, 198, 199, 255, 256,
        ]);
        let a1: Vec<u32> = Axis::values(vec![
            0, 1, 2, 128, 256, 512, 1024, 2046, 2047, 2048, 2049, 2050, 2897, 4096, 5792, 8191,
            8192, 8193, 16384, 32767, 32768, 32769, 65536, 131072, 262144, 524288, 1048576,
        ]);
        let r = SweepGrid::new(vec![a0, a1]);
        proof {
            assert(r.points() =~= Self::axes(*config, tokens@));
            assert(r.scale() =~= whole_units(r.points()));
        }
        r
    }

    fn cache_kind(backend: &str) -> (r: CacheKind) {
        CacheKind::Cache2DLinear(Extrapolation::Product)
    }

    fn has_mask() -> (r: bool) {
        true
    }

    fn is_infeasible(config: &DsaPersistentTopkDecodeKernelConfig, cell: &Vec<u32>) -> (r: bool) {
        let stride: u64 = config.logits_row_stride.get() as u64;
        let rows: u64 = config.next_n as u64;
        let batch: u64 = cell[0] as u64;
        let minimum: u32 = config.next_n.saturating_sub(1);
        assert(0 <= stride * 4 * rows <= 4 * 0x1_0000_0000 * 0x1_0000_0000) by (nonlinear_arith)
            requires
                0 <= stride <= 0xffff_ffff,
                0 <= rows <= 0xffff_ffff,
        ;
        let row: u128 = stride as u128 * 4 * rows as u128;
        assert(0 <= batch * row <= 4 * 0x1_0000_0000 * 0x1_0000_0000 * 0x1_0000_0000)
            by (nonlinear_arith)
            requires
                0 <= row <= 4 * 0x1_0000_0000 * 0x1_0000_0000,
                0 <= batch <= 0xffff_ffff,
        ;
        let bytes: u128 = batch as u128 * row;
        cell[1] < minimum || cell[1] > config.max_model_len.get() || bytes
            > MAX_PROFILE_ALLOCATION_BYTES as u128
    }

    fn can_answer(
        config: &DsaPersistentTopkDecodeKernelConfig,
        input: &DsaPersistentTopkDecodeKernelInput,
    ) -> (r: bool) {
        input.is_well_shaped()
    }

    fn cache_coords(
        config: &DsaPersistentTopkDecodeKernelConfig,
        input: &DsaPersistentTopkDecodeKernelInput,
    ) -> (r: Vec<Ratio>) {
        input.coords()
    }

    proof fn sweep_fits_table(
        config: DsaPersistentTopkDecodeKernelConfig,
        tokens: Seq<u32>,
        backend: Seq<char>,
    ) {
    }

    proof fn sweep_is_judged(
        config: DsaPersistentTopkDecodeKernelConfig,
        tokens: Seq<u32>,
        index: nat,
    ) {
        cell_on_axes(Self::axes(config, tokens), index);
    }

    proof fn queries_fit_table(
        config: DsaPersistentTopkDecodeKernelConfig,
        input: DsaPersistentTopkDecodeKernelInput,
        backend: Seq<char>,
    ) {
    }
}

impl CellPayloads for DsaPersistentTopkDecodeSpec {
    open spec fn covers(config: DsaPersistentTopkDecodeKernelConfig, cell: Seq<u32>) -> bool {
        cell.len() == 2
    }

    open spec fn enumerates(config: DsaPersistentTopkDecodeKernelConfig) -> bool {
        true
    }

    open spec fn fields(
        config: DsaPersistentTopkDecodeKernelConfig,
        cell: Seq<u32>,
        backend: Seq<char>,
    ) -> Map<Seq<char>, WireValue> {
        Map::<Seq<char>, WireValue>::empty()
            .insert("batch_size"@, WireValue::Number(cell[0] as nat))
            .insert("context_len"@, WireValue::Number(cell[1] as nat))
            .insert("next_n"@, WireValue::Number(config.next_n as nat))
            .insert("max_model_len"@, WireValue::Number(config.max_model_len@.fold() as nat))
            .insert("top_k"@, WireValue::Number(config.top_k as nat))
            .insert(
                "logits_row_stride"@,
                WireValue::Number(config.logits_row_stride@.fold() as nat),
            )
            .insert("logits_dtype"@, WireValue::Text(dtype_text(config.logits_dtype)))
            .insert("index_dtype"@, WireValue::Text(config.index_dtype@))
            .insert("context_mode"@, WireValue::Text(config.context_mode@))
            .insert("backend"@, WireValue::Text(backend))
    }

    fn can_enumerate(config: &DsaPersistentTopkDecodeKernelConfig) -> (r: bool) {
        true
    }

    fn cell_payload(
        config: &DsaPersistentTopkDecodeKernelConfig,
        cell: &Vec<u32>,
        backend: &str,
    ) -> (r: ArgsPayload) {
        ArgsPayload::new()
            .with("batch_size", number_value(cell[0]))
            .with("context_len", number_value(cell[1]))
            .with("next_n", number_value(config.next_n))
            .with("max_model_len", number_value(config.max_model_len.get()))
            .with("top_k", number_value(config.top_k))
            .with("logits_row_stride", number_value(config.logits_row_stride.get()))
            .with("logits_dtype", text_value(config.logits_dtype.as_str()))
            .with("index_dtype", text_value(config.index_dtype.as_str()))
            .with("context_mode", text_value(config.context_mode.as_str()))
            .with("backend", text_value(backend))
    }

    proof fn sweep_is_covered(
        config: DsaPersistentTopkDecodeKernelConfig,
        tokens: Seq<u32>,
        index: nat,
    ) {
        cell_on_axes(Self::axes(config, tokens), index);
    }

    proof fn fields_name_backend(
        config: DsaPersistentTopkDecodeKernelConfig,
        cell: Seq<u32>,
        backend: Seq<char>,
    ) {
    }

    open spec fn describes(
        config: DsaPersistentTopkDecodeKernelConfig,
        fields: Map<Seq<char>, WireValue>,
        input: DsaPersistentTopkDecodeKernelInput,
    ) -> bool {
        &&& number_at(fields, "batch_size"@) == input.batch_size
        &&& number_at(fields, "context_len"@) == input.context_len
    }

    open spec fn occurs(config: DsaPersistentTopkDecodeKernelConfig, cell: Seq<u32>) -> bool {
        true
    }

    open spec fn kept_back() -> Set<Seq<char>> {
        set!["backends"@, "gpu_name"@]
    }

    proof fn payload_stands_at_its_cell(
        config: DsaPersistentTopkDecodeKernelConfig,
        tokens: Seq<u32>,
        index: nat,
        backend: Seq<char>,
        input: DsaPersistentTopkDecodeKernelInput,
    ) {
        cell_on_axes(Self::axes(config, tokens), index);
        reveal_strlit("batch_size");
        reveal_strlit("context_len");
        reveal_strlit("next_n");
        reveal_strlit("max_model_len");
        reveal_strlit("top_k");
        reveal_strlit("logits_row_stride");
        reveal_strlit("logits_dtype");
        reveal_strlit("index_dtype");
        reveal_strlit("context_mode");
        reveal_strlit("backend");
        assert("batch_size"@.len() == 10);
        assert("context_len"@.len() == 11 && "context_len"@[0] == 'c');
        assert("next_n"@.len() == 6);
        assert("max_model_len"@.len() == 13);
        assert("top_k"@.len() == 5);
        assert("logits_row_stride"@.len() == 17);
        assert("logits_dtype"@.len() == 12);
        assert("index_dtype"@.len() == 11 && "index_dtype"@[0] == 'i');
        assert("context_mode"@.len() == 12);
        assert("backend"@.len() == 7);
    }

    proof fn payload_carries_config(
        config: DsaPersistentTopkDecodeKernelConfig,
        cell: Seq<u32>,
        backend: Seq<char>,
        i: int,
    ) {
        reveal_strlit("next_n");
        reveal_strlit("max_model_len");
        reveal_strlit("top_k");
        reveal_strlit("logits_row_stride");
        reveal_strlit("logits_dtype");
        reveal_strlit("index_dtype");
        reveal_strlit("context_mode");
        reveal_strlit("backend");
        assert("next_n"@.len() == 6);
        assert("max_model_len"@.len() == 13);
        assert("top_k"@.len() == 5);
        assert("logits_row_stride"@.len() == 17);
        assert("logits_dtype"@.len() == 12 && "logits_dtype"@[0] == 'l');
        assert("index_dtype"@.len() == 11);
        assert("context_mode"@.len() == 12 && "context_mode"@[0] == 'c');
        assert("backend"@.len() == 7);
        let fields = Self::fields(config, cell, backend);
        let terms = config.description();
        assert(carries(fields, terms[2]));
        assert(carries(fields, terms[3]));
        assert(carries(fields, terms[4]));
        assert(carries(fields, terms[5]));
        assert(carries(fields, terms[6]));
        assert(carries(fields, terms[7]));
        assert(carries(fields, terms[8]));
    }

    proof fn described_alike_is_profiled_alike(
        a: DsaPersistentTopkDecodeKernelConfig,
        b: DsaPersistentTopkDecodeKernelConfig,
        tokens: Seq<u32>,
        cell: Seq<u32>,
        backend: Seq<char>,
    ) {
        let (x, y) = (a.description(), b.description());
        assert(x[0] == y[0]);
        assert(x[1] == y[1]);
        assert(x[2] == y[2]);
        assert(x[3] == y[3]);
        assert(x[4] == y[4]);
        assert(x[5] == y[5]);
        assert(x[6] == y[6]);
        assert(x[7] == y[7]);
        assert(x[8] == y[8]);
    }
}

/// Bytes of the padded single-precision logits of one request.
pub open spec fn padded_row_bytes(config: DsaPersistentTopkDecodeKernelConfig) -> int {
    config.logits_row_stride@.fold() * 4 * config.next_n
}

/// The kernel computes in the precision that is described as `logits_dtype` and names no
/// precision that it keeps its cache in.
pub proof fn precisions_are_described(config: DsaPersistentTopkDecodeKernelConfig)
    ensures
        config.compute() matches Some(precision) && config.description()[6] == (
            "logits_dtype"@,
            ConfigTerm::Precision(precision),
        ),
        config.kv() is None,
{
}

} // verus!
