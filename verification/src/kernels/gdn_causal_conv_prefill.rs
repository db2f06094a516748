//! Causal convolution of a gated delta network in fresh prefill.
//!
//! The axes are the batch size and the sequence length. Nine follows the powers of two
//! up to eight because the launch changes there. Cells above the total of tokens that a
//! checkpoint admits are left out.

use crate::bridge::payload::{
    dtype_text, number_value, text_value, ArgsPayload, DType, KernelKind, WireValue,
};
use crate::cache::{CacheKind, Extrapolation};
use crate::dims::Dim;
use crate::kernels::config::{
    dimension_of, field, fields_view, names_of, precision_of, text_of, ConfigField, ConfigTerm,
    KernelConfig,
};
use crate::kernels::engine::{
    carries, number_at, whole_units, CellPayloads, KernelSpec, SweepCoords,
};
use crate::sweep::{cell_on_axes, chained, pow2_points, whole, Axis, Ratio, SweepGrid};
use vstd::prelude::*;

verus! {

/// The most tokens of a batch.
pub const MAX_TOTAL_TOKENS: u64 = 262144;

#[derive(Clone, Debug, PartialEq, Eq, Hash)]
pub struct GdnCausalConvPrefillKernelConfig {
    pub backends: Vec<&'static str>,
    pub gpu_name: String,
    pub channels: Dim,
    pub kernel_size: Dim,
    pub dtype: DType,
    pub state_dtype: DType,
}

impl KernelConfig for GdnCausalConvPrefillKernelConfig {
    const BACKENDS_FIELD: &'static str = "GdnCausalConvPrefillKernelConfig.backends";

    open spec fn candidates(&self) -> Seq<&'static str> {
        self.backends@
    }

    open spec fn gpu(&self) -> Seq<char> {
        self.gpu_name@
    }

    open spec fn compute(&self) -> Option<DType> {
        Some(self.dtype)
    }

    open spec fn kv(&self) -> Option<DType> {
        None
    }

    open spec fn description(&self) -> Seq<(Seq<char>, ConfigTerm)> {
        seq![
            ("backends"@, ConfigTerm::Names(self.backends@)),
            ("gpu_name"@, ConfigTerm::Text(self.gpu_name@)),
            ("channels"@, ConfigTerm::Dimension(self.channels@)),
            ("kernel_size"@, ConfigTerm::Dimension(self.kernel_size@)),
            ("dtype"@, ConfigTerm::Precision(self.dtype)),
            ("state_dtype"@, ConfigTerm::Precision(self.state_dtype)),
        ]
    }

    fn backends(&self) -> (r: &Vec<&'static str>) {
        &self.backends
    }

    fn gpu_name(&self) -> (r: &str) {
        self.gpu_name.as_str()
    }

    fn compute_dtype(&self) -> (r: Option<DType>) {
        Some(self.dtype)
    }

    fn kv_dtype(&self) -> (r: Option<DType>) {
        None
    }

    fn describe_config(&self) -> (r: Vec<ConfigField>) {
        let r: Vec<ConfigField> = vec![
            field("backends", names_of(&self.backends)),
            field("gpu_name", text_of(self.gpu_name.as_str())),
            field("channels", dimension_of(&self.channels)),
            field("kernel_size", dimension_of(&self.kernel_size)),
            field("dtype", precision_of(self.dtype)),
            field("state_dtype", precision_of(self.state_dtype)),
        ];
        assert(fields_view(r@) =~= self.description());
        r
    }
}

#[derive(Clone, Copy, Debug, PartialEq, Eq, Hash)]
pub struct GdnCausalConvPrefillKernelInput {
    pub batch_size: u32,
    pub sequence_length: u32,
}

impl SweepCoords for GdnCausalConvPrefillKernelInput {
    open spec fn well_shaped(&self) -> bool {
        true
    }

    open spec fn position(&self) -> Seq<Ratio> {
        seq![whole(self.batch_size as int), whole(self.sequence_length as int)]
    }

    open spec fn axis_names() -> Seq<Seq<char>> {
        seq!["batch_size"@, "sequence_length"@]
    }

    fn is_well_shaped(&self) -> (r: bool) {
        true
    }

    fn coords(&self) -> (r: Vec<Ratio>) {
        let r: Vec<Ratio> = vec![Ratio::from_whole(self.batch_size), Ratio::from_whole(self.sequence_length)];
        assert(r@ =~= self.position());
        r
    }

    fn coord_field_names() -> (r: Vec<&'static str>) {
        let r: Vec<&'static str> = vec!["batch_size", "sequence_length"];
        assert(r@.map_values(|name: &'static str| name@) =~= Self::axis_names());
        r
    }
}

pub struct GdnCausalConvPrefillSpec;

impl KernelSpec for GdnCausalConvPrefillSpec {
    type Config = GdnCausalConvPrefillKernelConfig;

    type Input = GdnCausalConvPrefillKernelInput;

    const KIND: KernelKind = "gdn_causal_conv_prefill";

    open spec fn admits(config: GdnCausalConvPrefillKernelConfig) -> bool {
        true
    }

    open spec fn axes(config: GdnCausalConvPrefillKernelConfig, tokens: Seq<u32>) -> Seq<Seq<u32>> {
        seq![
            pow2_points(0, 8),
            chained(chained(pow2_points(0, 3), seq![9u32]), pow2_points(4, 18)),
        ]
    }

    open spec fn units(axes: Seq<Seq<u32>>) -> Seq<u32> {
        whole_units(axes)
    }

    open spec fn table(backend: Seq<char>) -> CacheKind {
        CacheKind::Cache2DLinear(Extrapolation::Product)
    }

    open spec fn masks() -> bool {
        true
    }

    open spec fn judges(config: GdnCausalConvPrefillKernelConfig, cell: Seq<u32>) -> bool {
        cell.len() == 2
    }

    open spec fn infeasible(config: GdnCausalConvPrefillKernelConfig, cell: Seq<u32>) -> bool {
        cell[0] * cell[1] > MAX_TOTAL_TOKENS
    }

    open spec fn table_position(
        config: GdnCausalConvPrefillKernelConfig,
        input: GdnCausalConvPrefillKernelInput,
    ) -> Seq<Ratio> {
        input.position()
    }

    open spec fn answers(
        config: GdnCausalConvPrefillKernelConfig,
        input: GdnCausalConvPrefillKernelInput,
    ) -> bool {
        input.well_shaped()
    }

    fn profile_kind() -> (r: KernelKind) {
        Self::KIND
    }

    fn can_sweep(config: &GdnCausalConvPrefillKernelConfig) -> (r: bool) {
        true
    }

    fn sweep_grid(config: &GdnCausalConvPrefillKernelConfig, tokens: &Vec<u32>) -> (r: SweepGrid) {
        let nine: Vec<u32> = vec![9];
        let long: Vec<u32> = Axis::pow2(4, 18);
        assert(nine@ =~= seq![9u32]);
        let a0: Vec<u32> = Axis::pow2(0, 8);
        let a1: Vec<u32> = Axis::chain(Axis::chain(Axis::pow2(0, 3), &nine), &long);
        let r = SweepGrid::new(vec![a0, a1]);
        proof {
            assert(r.points() =~= Self::axes(*config, tokens@));
            assert(r.scale() =~= whole_units(r.points()));
        }
        r
    }

    fn cache_kind(backend: &str) -> (r: CacheKind) {
        CacheKind::Cache2DLinear(Extrapolation::Product)
    }

    fn has_mask() -> (r: bool) {
        true
    }

    fn is_infeasible(config: &GdnCausalConvPrefillKernelConfig, cell: &Vec<u32>) -> (r: bool) {
        product_of(cell[0], cell[1]) > MAX_TOTAL_TOKENS
    }

    fn can_answer(
        config: &GdnCausalConvPrefillKernelConfig,
        input: &GdnCausalConvPrefillKernelInput,
    ) -> (r: bool) {
        input.is_well_shaped()
    }

    fn cache_coords(
        config: &GdnCausalConvPrefillKernelConfig,
        input: &GdnCausalConvPrefillKernelInput,
    ) -> (r: Vec<Ratio>) {
        input.coords()
    }

    proof fn sweep_fits_table(
        config: GdnCausalConvPrefillKernelConfig,
        tokens: Seq<u32>,
        backend: Seq<char>,
    ) {
    }

    proof fn sweep_is_judged(
        config: GdnCausalConvPrefillKernelConfig,
        tokens: Seq<u32>,
        index: nat,
    ) {
        cell_on_axes(Self::axes(config, tokens), index);
    }

    proof fn queries_fit_table(
        config: GdnCausalConvPrefillKernelConfig,
        input: GdnCausalConvPrefillKernelInput,
        backend: Seq<char>,
    ) {
    }
}

impl CellPayloads for GdnCausalConvPrefillSpec {
    open spec fn covers(config: GdnCausalConvPrefillKernelConfig, cell: Seq<u32>) -> bool {
        cell.len() == 2
    }

    open spec fn enumerates(config: GdnCausalConvPrefillKernelConfig) -> bool {
        true
    }

    open spec fn fields(
        config: GdnCausalConvPrefillKernelConfig,
        cell: Seq<u32>,
        backend: Seq<char>,
    ) -> Map<Seq<char>, WireValue> {
        Map::<Seq<char>, WireValue>::empty()
            .insert("batch_size"@, WireValue::Number(cell[0] as nat))
            .insert("sequence_length"@, WireValue::Number(cell[1] as nat))
            .insert("channels"@, WireValue::Number(config.channels@.fold() as nat))
            .insert("kernel_size"@, WireValue::Number(config.kernel_size@.fold() as nat))
            .insert("dtype"@, WireValue::Text(dtype_text(config.dtype)))
            .insert("state_dtype"@, WireValue::Text(dtype_text(config.state_dtype)))
            .insert("backend"@, WireValue::Text(backend))
    }

    fn can_enumerate(config: &GdnCausalConvPrefillKernelConfig) -> (r: bool) {
        true
    }

    fn cell_payload(
        config: &GdnCausalConvPrefillKernelConfig,
        cell: &Vec<u32>,
        backend: &str,
    ) -> (r: ArgsPayload) {
        ArgsPayload::new()
            .with("batch_size", number_value(cell[0]))
            .with("sequence_length", number_value(cell[1]))
            .with("channels", number_value(config.channels.get()))
            .with("kernel_size", number_value(config.kernel_size.get()))
            .with("dtype", text_value(config.dtype.as_str()))
            .with("state_dtype", text_value(config.state_dtype.as_str()))
            .with("backend", text_value(backend))
    }

    proof fn sweep_is_covered(
        config: GdnCausalConvPrefillKernelConfig,
        tokens: Seq<u32>,
        index: nat,
    ) {
        cell_on_axes(Self::axes(config, tokens), index);
    }

    proof fn fields_name_backend(
        config: GdnCausalConvPrefillKernelConfig,
        cell: Seq<u32>,
        backend: Seq<char>,
    ) {
    }

    open spec fn describes(
        config: GdnCausalConvPrefillKernelConfig,
        fields: Map<Seq<char>, WireValue>,
        input: GdnCausalConvPrefillKernelInput,
    ) -> bool {
        &&& number_at(fields, "batch_size"@) == input.batch_size
        &&& number_at(fields, "sequence_length"@) == input.sequence_length
    }

    open spec fn occurs(config: GdnCausalConvPrefillKernelConfig, cell: Seq<u32>) -> bool {
        true
    }

    open spec fn kept_back() -> Set<Seq<char>> {
        set!["backends"@, "gpu_name"@]
    }

    proof fn payload_stands_at_its_cell(
        config: GdnCausalConvPrefillKernelConfig,
        tokens: Seq<u32>,
        index: nat,
        backend: Seq<char>,
        input: GdnCausalConvPrefillKernelInput,
    ) {
        cell_on_axes(Self::axes(config, tokens), index);
        reveal_strlit("batch_size");
        reveal_strlit("sequence_length");
        reveal_strlit("channels");
        reveal_strlit("kernel_size");
        reveal_strlit("dtype");
        reveal_strlit("state_dtype");
        reveal_strlit("backend");
        assert("batch_size"@.len() == 10);
        assert("sequence_length"@.len() == 15);
        assert("channels"@.len() == 8);
        assert("kernel_size"@.len() == 11);
        assert("dtype"@.len() == 5);
        assert("state_dtype"@.len() == 11);
        assert("backend"@.len() == 7);
    }

    proof fn payload_carries_config(
        config: GdnCausalConvPrefillKernelConfig,
        cell: Seq<u32>,
        backend: Seq<char>,
        i: int,
    ) {
        reveal_strlit("channels");
        reveal_strlit("kernel_size");
        reveal_strlit("dtype");
        reveal_strlit("state_dtype");
        reveal_strlit("backend");
        assert("channels"@.len() == 8);
        assert("kernel_size"@.len() == 11 && "kernel_size"@[0] == 'k');
        assert("dtype"@.len() == 5);
        assert("state_dtype"@.len() == 11 && "state_dtype"@[0] == 's');
        assert("backend"@.len() == 7);
        let fields = Self::fields(config, cell, backend);
        let terms = config.description();
        assert(carries(fields, terms[2]));
        assert(carries(fields, terms[3]));
        assert(carries(fields, terms[4]));
        assert(carries(fields, terms[5]));
    }

    proof fn described_alike_is_profiled_alike(
        a: GdnCausalConvPrefillKernelConfig,
        b: GdnCausalConvPrefillKernelConfig,
        tokens: Seq<u32>,
        cell: Seq<u32>,
        backend: Seq<char>,
    ) {
        let (x, y) = (a.description(), b.description());
        assert(x[0] == y[0]);
        assert(x[1] == y[1]);
        assert(x[2] == y[2]);
        assert(x[3] == y[3]);
        assert(x[4] == y[4]);
        assert(x[5] == y[5]);
    }
}

/// The product of two sweep coordinates.
pub fn product_of(a: u32, b: u32) -> (r: u64)
    ensures
        r == a * b,
{
    assert(0 <= a * b <= u64::MAX) by (nonlinear_arith)
        requires
            0 <= a <= u32::MAX,
            0 <= b <= u32::MAX,
    ;
    a as u64 * b as u64
}

/// The kernel computes in the precision that is described as `dtype` and names no precision
/// that it keeps its cache in.
pub proof fn precisions_are_described(config: GdnCausalConvPrefillKernelConfig)
    ensures
        config.compute() matches Some(precision) && config.description()[4] == (
            "dtype"@,
            ConfigTerm::Precision(precision),
        ),
        config.kv() is None,
{
}

} // verus!
