//! Chunked delta rule of a gated delta network as one fused launch.
//!
//! The recurrence is sequential within a sequence and independent across sequences, so
//! the table is built over the longest sequence `L` and the number `T / L` of sequences
//! of that length, not over the token total `T`.

use crate::bridge::payload::{
    dtype_text, number_value, text_value, ArgsPayload, DType, KernelKind, WireValue,
};
use crate::cache::{CacheKind, Extrapolation};
use crate::dims::Dim;
use crate::kernels::config::{
    dimension_of, field, fields_view, names_of, precision_of, text_of, ConfigField, ConfigTerm,
    KernelConfig,
};
use crate::kernels::engine::{
    carries, number_at, stands_on_whole_units, whole_units, CellPayloads, KernelSpec, SweepCoords,
};
use crate::kernels::gdn_causal_conv_prefill::product_of;
use crate::sweep::{
    cell_at, cell_on_axes, pow2_points, pow2_points_within, two_to, whole, Axis, Ratio, SweepGrid,
};
use vstd::prelude::*;

verus! {

/// The most tokens of a profiled batch.
pub const MAX_TOKENS: u64 = 65536;

#[derive(Clone, Debug, PartialEq, Eq, Hash)]
pub struct GdnChunkDeltaRuleKernelConfig {
    pub backends: Vec<&'static str>,
    pub gpu_name: String,
    pub num_key_heads: Dim,
    pub num_heads: Dim,
    pub key_head_dim: Dim,
    pub value_head_dim: Dim,
    pub dtype: DType,
}

impl KernelConfig for GdnChunkDeltaRuleKernelConfig {
    const BACKENDS_FIELD: &'static str = "GdnChunkDeltaRuleKernelConfig.backends";

    open spec fn candidates(&self) -> Seq<&'static str> {
        self.backends@
    }

    open spec fn gpu(&self) -> Seq<char> {
        self.gpu_name@
    }

    open spec fn compute(&self) -> Option<DType> {
        Some(self.dtype)
    }

    open spec fn kv(&self) -> Option<DType> {
        None
    }

    open spec fn description(&self) -> Seq<(Seq<char>, ConfigTerm)> {
        seq![
            ("backends"@, ConfigTerm::Names(self.backends@)),
            ("gpu_name"@, ConfigTerm::Text(self.gpu_name@)),
            ("num_key_heads"@, ConfigTerm::Dimension(self.num_key_heads@)),
            ("num_heads"@, ConfigTerm::Dimension(self.num_heads@)),
            ("key_head_dim"@, ConfigTerm::Dimension(self.key_head_dim@)),
            ("value_head_dim"@, ConfigTerm::Dimension(self.value_head_dim@)),
            ("dtype"@, ConfigTerm::Precision(self.dtype)),
        ]
    }

    fn backends(&self) -> (r: &Vec<&'static str>) {
        &self.backends
    }

    fn gpu_name(&self) -> (r: &str) {
        self.gpu_name.as_str()
    }

    fn compute_dtype(&self) -> (r: Option<DType>) {
        Some(self.dtype)
    }

    fn kv_dtype(&self) -> (r: Option<DType>) {
        None
    }

    fn describe_config(&self) -> (r: Vec<ConfigField>) {
        let r: Vec<ConfigField> = vec![
            field("backends", names_of(&self.backends)),
            field("gpu_name", text_of(self.gpu_name.as_str())),
            field("num_key_heads", dimension_of(&self.num_key_heads)),
            field("num_heads", dimension_of(&self.num_heads)),
            field("key_head_dim", dimension_of(&self.key_head_dim)),
            field("value_head_dim", dimension_of(&self.value_head_dim)),
            field("dtype", precision_of(self.dtype)),
        ];
        assert(fields_view(r@) =~= self.description());
        r
    }
}

/// The caller's shape: the token total and the longest sequence.
#[derive(Clone, Copy, Debug, PartialEq, Eq, Hash)]
pub struct GdnChunkDeltaRuleKernelInput {
    pub num_tokens: u32,
    pub max_sequence_length: u32,
}

impl SweepCoords for GdnChunkDeltaRuleKernelInput {
    open spec fn well_shaped(&self) -> bool {
        true
    }

    open spec fn position(&self) -> Seq<Ratio> {
        seq![
            whole(self.max_sequence_length as int),
            (Ratio {
                numerator: self.num_tokens as u64,
                denominator: self.max_sequence_length as u64,
            }),
        ]
    }

    open spec fn axis_names() -> Seq<Seq<char>> {
        seq!["num_tokens"@, "max_sequence_length"@]
    }

    fn is_well_shaped(&self) -> (r: bool) {
        true
    }

    fn coords(&self) -> (r: Vec<Ratio>) {
        let r: Vec<Ratio> = vec![
            Ratio::from_whole(self.max_sequence_length),
            Ratio {
                numerator: self.num_tokens as u64,
                denominator: self.max_sequence_length as u64,
            },
        ];
        assert(r@ =~= self.position());
        r
    }

    fn coord_field_names() -> (r: Vec<&'static str>) {
        let r: Vec<&'static str> = vec!["num_tokens", "max_sequence_length"];
        assert(r@.map_values(|name: &'static str| name@) =~= Self::axis_names());
        r
    }
}

pub struct GdnChunkDeltaRuleSpec;

impl KernelSpec for GdnChunkDeltaRuleSpec {
    type Config = GdnChunkDeltaRuleKernelConfig;

    type Input = GdnChunkDeltaRuleKernelInput;

    const KIND: KernelKind = "gdn_chunk_delta_rule";

    open spec fn admits(config: GdnChunkDeltaRuleKernelConfig) -> bool {
        true
    }

    open spec fn axes(config: GdnChunkDeltaRuleKernelConfig, tokens: Seq<u32>) -> Seq<Seq<u32>> {
        seq![pow2_points(6, 14), pow2_points(0, 4)]
    }

    open spec fn units(axes: Seq<Seq<u32>>) -> Seq<u32> {
        whole_units(axes)
    }

    open spec fn table(backend: Seq<char>) -> CacheKind {
        CacheKind::Cache2DLinear(Extrapolation::Product)
    }

    open spec fn masks() -> bool {
        true
    }

    open spec fn judges(config: GdnChunkDeltaRuleKernelConfig, cell: Seq<u32>) -> bool {
        cell.len() == 2
    }

    open spec fn infeasible(config: GdnChunkDeltaRuleKernelConfig, cell: Seq<u32>) -> bool {
        cell[0] * cell[1] > MAX_TOKENS
    }

    open spec fn table_position(
        config: GdnChunkDeltaRuleKernelConfig,
        input: GdnChunkDeltaRuleKernelInput,
    ) -> Seq<Ratio> {
        input.position()
    }

    open spec fn answers(
        config: GdnChunkDeltaRuleKernelConfig,
        input: GdnChunkDeltaRuleKernelInput,
    ) -> bool {
        input.well_shaped()
    }

    fn profile_kind() -> (r: KernelKind) {
        Self::KIND
    }

    fn can_sweep(config: &GdnChunkDeltaRuleKernelConfig) -> (r: bool) {
        true
    }

    fn sweep_grid(config: &GdnChunkDeltaRuleKernelConfig, tokens: &Vec<u32>) -> (r: SweepGrid) {
        let a0: Vec<u32> = Axis::pow2(6, 14);
        let a1: Vec<u32> = Axis::pow2(0, 4);
        let r = SweepGrid::new(vec![a0, a1]);
        proof {
            assert(r.points() =~= Self::axes(*config, tokens@));
            assert(r.scale() =~= whole_units(r.points()));
        }
        r
    }

    fn cache_kind(backend: &str) -> (r: CacheKind) {
        CacheKind::Cache2DLinear(Extrapolation::Product)
    }

    fn has_mask() -> (r: bool) {
        true
    }

    fn is_infeasible(config: &GdnChunkDeltaRuleKernelConfig, cell: &Vec<u32>) -> (r: bool) {
        product_of(cell[0], cell[1]) > MAX_TOKENS
    }

    fn can_answer(
        config: &GdnChunkDeltaRuleKernelConfig,
        input: &GdnChunkDeltaRuleKernelInput,
    ) -> (r: bool) {
        input.is_well_shaped()
    }

    fn cache_coords(
        config: &GdnChunkDeltaRuleKernelConfig,
        input: &GdnChunkDeltaRuleKernelInput,
    ) -> (r: Vec<Ratio>) {
        input.coords()
    }

    proof fn sweep_fits_table(
        config: GdnChunkDeltaRuleKernelConfig,
        tokens: Seq<u32>,
        backend: Seq<char>,
    ) {
    }

    proof fn sweep_is_judged(config: GdnChunkDeltaRuleKernelConfig, tokens: Seq<u32>, index: nat) {
        cell_on_axes(Self::axes(config, tokens), index);
    }

    proof fn queries_fit_table(
        config: GdnChunkDeltaRuleKernelConfig,
        input: GdnChunkDeltaRuleKernelInput,
        backend: Seq<char>,
    ) {
    }
}

impl CellPayloads for GdnChunkDeltaRuleSpec {
    open spec fn covers(config: GdnChunkDeltaRuleKernelConfig, cell: Seq<u32>) -> bool {
        cell.len() == 2 && cell[0] * cell[1] <= u32::MAX
    }

    open spec fn enumerates(config: GdnChunkDeltaRuleKernelConfig) -> bool {
        true
    }

    open spec fn fields(
        config: GdnChunkDeltaRuleKernelConfig,
        cell: Seq<u32>,
        backend: Seq<char>,
    ) -> Map<Seq<char>, WireValue> {
        Map::<Seq<char>, WireValue>::empty()
            .insert("num_tokens"@, WireValue::Number((cell[0] * cell[1]) as nat))
            .insert("max_sequence_length"@, WireValue::Number(cell[0] as nat))
            .insert("num_key_heads"@, WireValue::Number(config.num_key_heads@.fold() as nat))
            .insert("num_heads"@, WireValue::Number(config.num_heads@.fold() as nat))
            .insert("key_head_dim"@, WireValue::Number(config.key_head_dim@.fold() as nat))
            .insert("value_head_dim"@, WireValue::Number(config.value_head_dim@.fold() as nat))
            .insert("dtype"@, WireValue::Text(dtype_text(config.dtype)))
            .insert("backend"@, WireValue::Text(backend))
    }

    fn can_enumerate(config: &GdnChunkDeltaRuleKernelConfig) -> (r: bool) {
        true
    }

    fn cell_payload(
        config: &GdnChunkDeltaRuleKernelConfig,
        cell: &Vec<u32>,
        backend: &str,
    ) -> (r: ArgsPayload) {
        ArgsPayload::new()
            .with("num_tokens", number_value(product_of(cell[0], cell[1]) as u32))
            .with("max_sequence_length", number_value(cell[0]))
            .with("num_key_heads", number_value(config.num_key_heads.get()))
            .with("num_heads", number_value(config.num_heads.get()))
            .with("key_head_dim", number_value(config.key_head_dim.get()))
            .with("value_head_dim", number_value(config.value_head_dim.get()))
            .with("dtype", text_value(config.dtype.as_str()))
            .with("backend", text_value(backend))
    }

    proof fn sweep_is_covered(config: GdnChunkDeltaRuleKernelConfig, tokens: Seq<u32>, index: nat) {
        cell_on_axes(Self::axes(config, tokens), index);
        let cell = cell_at(Self::axes(config, tokens), index);
        assert(Self::axes(config, tokens)[0].contains(cell[0]));
        assert(Self::axes(config, tokens)[1].contains(cell[1]));
        pow2_points_within(6, 14, cell[0]);
        pow2_points_within(0, 4, cell[1]);
        assert(two_to(14) == 16384 && two_to(4) == 16) by {
            reveal_with_fuel(two_to, 15);
        }
        assert(cell[0] * cell[1] <= 16384 * 16) by (nonlinear_arith)
            requires
                cell[0] <= 16384,
                cell[1] <= 16,
        ;
    }

    proof fn fields_name_backend(
        config: GdnChunkDeltaRuleKernelConfig,
        cell: Seq<u32>,
        backend: Seq<char>,
    ) {
    }

    open spec fn describes(
        config: GdnChunkDeltaRuleKernelConfig,
        fields: Map<Seq<char>, WireValue>,
        input: GdnChunkDeltaRuleKernelInput,
    ) -> bool {
        &&& number_at(fields, "num_tokens"@) == input.num_tokens
        &&& number_at(fields, "max_sequence_length"@) == input.max_sequence_length
    }

    open spec fn occurs(config: GdnChunkDeltaRuleKernelConfig, cell: Seq<u32>) -> bool {
        true
    }

    open spec fn kept_back() -> Set<Seq<char>> {
        set!["backends"@, "gpu_name"@]
    }

    proof fn payload_stands_at_its_cell(
        config: GdnChunkDeltaRuleKernelConfig,
        tokens: Seq<u32>,
        index: nat,
        backend: Seq<char>,
        input: GdnChunkDeltaRuleKernelInput,
    ) {
        cell_on_axes(Self::axes(config, tokens), index);
        reveal_strlit("num_tokens");
        reveal_strlit("max_sequence_length");
        reveal_strlit("num_key_heads");
        reveal_strlit("num_heads");
        reveal_strlit("key_head_dim");
        reveal_strlit("value_head_dim");
        reveal_strlit("dtype");
        reveal_strlit("backend");
        assert("num_tokens"@.len() == 10);
        assert("max_sequence_length"@.len() == 19);
        assert("num_key_heads"@.len() == 13);
        assert("num_heads"@.len() == 9);
        assert("key_head_dim"@.len() == 12);
        assert("value_head_dim"@.len() == 14);
        assert("dtype"@.len() == 5);
        assert("backend"@.len() == 7);
        let cell = cell_at(Self::axes(config, tokens), index);
        assert(Self::axes(config, tokens)[0].contains(cell[0]));
        pow2_points_within(6, 14, cell[0]);
        launch_stands_at_cell(cell, input);
        let at = Self::table_position(config, input);
        assert(at[0] == whole(cell[0] as int));
        assert(at[1].numerator == cell[1] * at[1].denominator);
        stands_on_whole_units(at, cell, Self::units(Self::axes(config, tokens)));
    }

    proof fn payload_carries_config(
        config: GdnChunkDeltaRuleKernelConfig,
        cell: Seq<u32>,
        backend: Seq<char>,
        i: int,
    ) {
        reveal_strlit("num_key_heads");
        reveal_strlit("num_heads");
        reveal_strlit("key_head_dim");
        reveal_strlit("value_head_dim");
        reveal_strlit("dtype");
        reveal_strlit("backend");
        assert("num_key_heads"@.len() == 13);
        assert("num_heads"@.len() == 9);
        assert("key_head_dim"@.len() == 12);
        assert("value_head_dim"@.len() == 14);
        assert("dtype"@.len() == 5);
        assert("backend"@.len() == 7);
        let fields = Self::fields(config, cell, backend);
        let terms = config.description();
        assert(carries(fields, terms[2]));
        assert(carries(fields, terms[3]));
        assert(carries(fields, terms[4]));
        assert(carries(fields, terms[5]));
        assert(carries(fields, terms[6]));
    }

    proof fn described_alike_is_profiled_alike(
        a: GdnChunkDeltaRuleKernelConfig,
        b: GdnChunkDeltaRuleKernelConfig,
        tokens: Seq<u32>,
        cell: Seq<u32>,
        backend: Seq<char>,
    ) {
        let (x, y) = (a.description(), b.description());
        assert(x[0] == y[0]);
        assert(x[1] == y[1]);
        assert(x[2] == y[2]);
        assert(x[3] == y[3]);
        assert(x[4] == y[4]);
        assert(x[5] == y[5]);
        assert(x[6] == y[6]);
    }
}

/// The launch of a cell, taken as a query, stands at the cell: its longest sequence is
/// the first coordinate and its rows are the second times as many.
pub proof fn launch_stands_at_cell(cell: Seq<u32>, input: GdnChunkDeltaRuleKernelInput)
    requires
        cell.len() == 2,
        input.max_sequence_length == cell[0],
        input.num_tokens == cell[0] * cell[1],
    ensures
        input.position()[0] == whole(cell[0] as int),
        input.position()[1].numerator == cell[1] * input.position()[1].denominator,
{
    assert(cell[0] * cell[1] == cell[1] * cell[0]) by (nonlinear_arith);
}

/// The kernel computes in the precision that is described as `dtype` and names no precision
/// that it keeps its cache in.
pub proof fn precisions_are_described(config: GdnChunkDeltaRuleKernelConfig)
    ensures
        config.compute() matches Some(precision) && config.description()[6] == (
            "dtype"@,
            ConfigTerm::Precision(precision),
        ),
        config.kv() is None,
{
}

} // verus!
