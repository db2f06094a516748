//! RMS normalization of the query and key-value latents in one launch.

use crate::bridge::payload::{
    dtype_text, number_value, text_value, ArgsPayload, DType, KernelKind, PayloadValue, Real,
    WireValue,
};
use crate::cache::CacheKind;
use crate::dims::Dim;
use crate::kernels::config::{
    bits_of, dimension_of, field, fields_view, names_of, precision_of, text_of, ConfigField,
    ConfigTerm, KernelConfig,
};
use crate::kernels::engine::{
    carries, number_at, whole_units, CellPayloads, KernelSpec, SweepCoords,
};
use crate::sweep::{
    ascending, ascending_of, cell_on_axes, chained, pow2_points, whole, Axis, Ratio, SweepGrid,
};
use vstd::prelude::*;

verus! {

/// The bits of the double nearest to one millionth.
pub const EPS_1E6_BITS: u64 = 0x3eb0_c6f7_a0b5_ed8d;

/// The bits of the double nearest to one hundred-thousandth.
pub const EPS_1E5_BITS: u64 = 0x3ee4_f8b5_88e3_68f1;

#[derive(Clone, Debug, PartialEq, Eq, Hash)]
pub struct DeepseekV4FusedQKvRmsnormKernelConfig {
    pub backends: Vec<&'static str>,
    pub gpu_name: String,
    pub q_dim: Dim,
    pub kv_dim: Dim,
    /// The bits of the epsilon as a double.
    pub rms_eps_bits: u64,
    pub dtype: DType,
}

impl KernelConfig for DeepseekV4FusedQKvRmsnormKernelConfig {
    const BACKENDS_FIELD: &'static str = "DeepseekV4FusedQKvRmsnormKernelConfig.backends";

    open spec fn candidates(&self) -> Seq<&'static str> {
        self.backends@
    }

    open spec fn gpu(&self) -> Seq<char> {
        self.gpu_name@
    }

    open spec fn compute(&self) -> Option<DType> {
        Some(self.dtype)
    }

    open spec fn kv(&self) -> Option<DType> {
        None
    }

    open spec fn description(&self) -> Seq<(Seq<char>, ConfigTerm)> {
        seq![
            ("backends"@, ConfigTerm::Names(self.backends@)),
            ("gpu_name"@, ConfigTerm::Text(self.gpu_name@)),
            ("q_dim"@, ConfigTerm::Dimension(self.q_dim@)),
            ("kv_dim"@, ConfigTerm::Dimension(self.kv_dim@)),
            ("rms_eps_bits"@, ConfigTerm::Number(self.rms_eps_bits as nat)),
            ("dtype"@, ConfigTerm::Precision(self.dtype)),
        ]
    }

    fn backends(&self) -> (r: &Vec<&'static str>) {
        &self.backends
    }

    fn gpu_name(&self) -> (r: &str) {
        self.gpu_name.as_str()
    }

    fn compute_dtype(&self) -> (r: Option<DType>) {
        Some(self.dtype)
    }

    fn kv_dtype(&self) -> (r: Option<DType>) {
        None
    }

    fn describe_config(&self) -> (r: Vec<ConfigField>) {
        let r: Vec<ConfigField> = vec![
            field("backends", names_of(&self.backends)),
            field("gpu_name", text_of(self.gpu_name.as_str())),
            field("q_dim", dimension_of(&self.q_dim)),
            field("kv_dim", dimension_of(&self.kv_dim)),
            field("rms_eps_bits", bits_of(self.rms_eps_bits)),
            field("dtype", precision_of(self.dtype)),
        ];
        assert(fields_view(r@) =~= self.description());
        r
    }
}

#[derive(Clone, Copy, Debug, PartialEq, Eq, Hash)]
pub struct DeepseekV4FusedQKvRmsnormKernelInput {
    pub num_tokens: u32,
}

impl SweepCoords for DeepseekV4FusedQKvRmsnormKernelInput {
    open spec fn well_shaped(&self) -> bool {
        true
    }

    open spec fn position(&self) -> Seq<Ratio> {
        seq![whole(self.num_tokens as int)]
    }

    open spec fn axis_names() -> Seq<Seq<char>> {
        seq!["num_tokens"@]
    }

    fn is_well_shaped(&self) -> (r: bool) {
        true
    }

    fn coords(&self) -> (r: Vec<Ratio>) {
        let r: Vec<Ratio> = vec![Ratio::from_whole(self.num_tokens)];
        assert(r@ =~= self.position());
        r
    }

    fn coord_field_names() -> (r: Vec<&'static str>) {
        let r: Vec<&'static str> = vec!["num_tokens"];
        assert(r@.map_values(|name: &'static str| name@) =~= Self::axis_names());
        r
    }
}

pub struct DeepseekV4FusedQKvRmsnormSpec;

impl KernelSpec for DeepseekV4FusedQKvRmsnormSpec {
    type Config = DeepseekV4FusedQKvRmsnormKernelConfig;

    type Input = DeepseekV4FusedQKvRmsnormKernelInput;

    const KIND: KernelKind = "deepseek_v4_fused_q_kv_rmsnorm";

    open spec fn admits(config: DeepseekV4FusedQKvRmsnormKernelConfig) -> bool {
        config.q_dim@.fold() == 1536 && config.kv_dim@.fold() == 512 && (config.rms_eps_bits
            == EPS_1E6_BITS || config.rms_eps_bits == EPS_1E5_BITS)
    }

    open spec fn axes(
        config: DeepseekV4FusedQKvRmsnormKernelConfig,
        tokens: Seq<u32>,
    ) -> Seq<Seq<u32>> {
        seq![ascending_of(chained(pow2_points(0, 4), tokens))]
    }

    open spec fn units(axes: Seq<Seq<u32>>) -> Seq<u32> {
        whole_units(axes)
    }

    open spec fn table(backend: Seq<char>) -> CacheKind {
        CacheKind::Cache1DLinear
    }

    open spec fn masks() -> bool {
        false
    }

    open spec fn judges(config: DeepseekV4FusedQKvRmsnormKernelConfig, cell: Seq<u32>) -> bool {
        true
    }

    open spec fn infeasible(config: DeepseekV4FusedQKvRmsnormKernelConfig, cell: Seq<u32>) -> bool {
        false
    }

    open spec fn table_position(
        config: DeepseekV4FusedQKvRmsnormKernelConfig,
        input: DeepseekV4FusedQKvRmsnormKernelInput,
    ) -> Seq<Ratio> {
        input.position()
    }

    open spec fn answers(
        config: DeepseekV4FusedQKvRmsnormKernelConfig,
        input: DeepseekV4FusedQKvRmsnormKernelInput,
    ) -> bool {
        input.well_shaped()
    }

    fn profile_kind() -> (r: KernelKind) {
        Self::KIND
    }

    fn can_sweep(config: &DeepseekV4FusedQKvRmsnormKernelConfig) -> (r: bool) {
        config.q_dim.get() == 1536 && config.kv_dim.get() == 512 && (config.rms_eps_bits == EPS_1E6_BITS
            || config.rms_eps_bits == EPS_1E5_BITS)
    }

    fn sweep_grid(
        config: &DeepseekV4FusedQKvRmsnormKernelConfig,
        tokens: &Vec<u32>,
    ) -> (r: SweepGrid) {
        let a0: Vec<u32> = ascending(&Axis::chain(Axis::pow2(0, 4), tokens));
        let r = SweepGrid::new(vec![a0]);
        proof {
            assert(r.points() =~= Self::axes(*config, tokens@));
            assert(r.scale() =~= whole_units(r.points()));
        }
        r
    }

    fn cache_kind(backend: &str) -> (r: CacheKind) {
        CacheKind::Cache1DLinear
    }

    fn has_mask() -> (r: bool) {
        false
    }

    fn is_infeasible(config: &DeepseekV4FusedQKvRmsnormKernelConfig, cell: &Vec<u32>) -> (r: bool) {
        false
    }

    fn can_answer(
        config: &DeepseekV4FusedQKvRmsnormKernelConfig,
        input: &DeepseekV4FusedQKvRmsnormKernelInput,
    ) -> (r: bool) {
        input.is_well_shaped()
    }

    fn cache_coords(
        config: &DeepseekV4FusedQKvRmsnormKernelConfig,
        input: &DeepseekV4FusedQKvRmsnormKernelInput,
    ) -> (r: Vec<Ratio>) {
        input.coords()
    }

    proof fn sweep_fits_table(
        config: DeepseekV4FusedQKvRmsnormKernelConfig,
        tokens: Seq<u32>,
        backend: Seq<char>,
    ) {
    }

    proof fn sweep_is_judged(
        config: DeepseekV4FusedQKvRmsnormKernelConfig,
        tokens: Seq<u32>,
        index: nat,
    ) {
    }

    proof fn queries_fit_table(
        config: DeepseekV4FusedQKvRmsnormKernelConfig,
        input: DeepseekV4FusedQKvRmsnormKernelInput,
        backend: Seq<char>,
    ) {
    }
}

impl CellPayloads for DeepseekV4FusedQKvRmsnormSpec {
    open spec fn covers(config: DeepseekV4FusedQKvRmsnormKernelConfig, cell: Seq<u32>) -> bool {
        cell.len() == 1
    }

    open spec fn enumerates(config: DeepseekV4FusedQKvRmsnormKernelConfig) -> bool {
        true
    }

    open spec fn fields(
        config: DeepseekV4FusedQKvRmsnormKernelConfig,
        cell: Seq<u32>,
        backend: Seq<char>,
    ) -> Map<Seq<char>, WireValue> {
        Map::<Seq<char>, WireValue>::empty()
            .insert("num_tokens"@, WireValue::Number(cell[0] as nat))
            .insert("q_dim"@, WireValue::Number(config.q_dim@.fold() as nat))
            .insert("kv_dim"@, WireValue::Number(config.kv_dim@.fold() as nat))
            .insert("rms_eps"@, WireValue::Real(Real::Bits(config.rms_eps_bits)))
            .insert("dtype"@, WireValue::Text(dtype_text(config.dtype)))
            .insert("backend"@, WireValue::Text(backend))
    }

    fn can_enumerate(config: &DeepseekV4FusedQKvRmsnormKernelConfig) -> (r: bool) {
        true
    }

    fn cell_payload(
        config: &DeepseekV4FusedQKvRmsnormKernelConfig,
        cell: &Vec<u32>,
        backend: &str,
    ) -> (r: ArgsPayload) {
        ArgsPayload::new()
            .with("num_tokens", number_value(cell[0]))
            .with("q_dim", number_value(config.q_dim.get()))
            .with("kv_dim", number_value(config.kv_dim.get()))
            .with("rms_eps", PayloadValue::Real(Real::Bits(config.rms_eps_bits)))
            .with("dtype", text_value(config.dtype.as_str()))
            .with("backend", text_value(backend))
    }

    proof fn sweep_is_covered(
        config: DeepseekV4FusedQKvRmsnormKernelConfig,
        tokens: Seq<u32>,
        index: nat,
    ) {
        cell_on_axes(Self::axes(config, tokens), index);
    }

    proof fn fields_name_backend(
        config: DeepseekV4FusedQKvRmsnormKernelConfig,
        cell: Seq<u32>,
        backend: Seq<char>,
    ) {
    }

    open spec fn describes(
        config: DeepseekV4FusedQKvRmsnormKernelConfig,
        fields: Map<Seq<char>, WireValue>,
        input: DeepseekV4FusedQKvRmsnormKernelInput,
    ) -> bool {
        number_at(fields, "num_tokens"@) == input.num_tokens
    }

    open spec fn occurs(config: DeepseekV4FusedQKvRmsnormKernelConfig, cell: Seq<u32>) -> bool {
        true
    }

    open spec fn kept_back() -> Set<Seq<char>> {
        set!["backends"@, "gpu_name"@, "rms_eps_bits"@]
    }

    proof fn payload_stands_at_its_cell(
        config: DeepseekV4FusedQKvRmsnormKernelConfig,
        tokens: Seq<u32>,
        index: nat,
        backend: Seq<char>,
        input: DeepseekV4FusedQKvRmsnormKernelInput,
    ) {
        cell_on_axes(Self::axes(config, tokens), index);
        reveal_strlit("num_tokens");
        reveal_strlit("q_dim");
        reveal_strlit("kv_dim");
        reveal_strlit("rms_eps");
        reveal_strlit("dtype");
        reveal_strlit("backend");
        assert("num_tokens"@.len() == 10);
        assert("q_dim"@.len() == 5);
        assert("kv_dim"@.len() == 6);
        assert("rms_eps"@.len() == 7);
        assert("dtype"@.len() == 5);
        assert("backend"@.len() == 7);
    }

    proof fn payload_carries_config(
        config: DeepseekV4FusedQKvRmsnormKernelConfig,
        cell: Seq<u32>,
        backend: Seq<char>,
        i: int,
    ) {
        reveal_strlit("q_dim");
        reveal_strlit("kv_dim");
        reveal_strlit("rms_eps");
        reveal_strlit("dtype");
        reveal_strlit("backend");
        assert("q_dim"@.len() == 5 && "q_dim"@[0] == 'q');
        assert("kv_dim"@.len() == 6);
        assert("rms_eps"@.len() == 7);
        assert("dtype"@.len() == 5 && "dtype"@[0] == 'd');
        assert("backend"@.len() == 7);
        let fields = Self::fields(config, cell, backend);
        let terms = config.description();
        assert(carries(fields, terms[2]));
        assert(carries(fields, terms[3]));
        assert(carries(fields, terms[5]));
    }

    proof fn described_alike_is_profiled_alike(
        a: DeepseekV4FusedQKvRmsnormKernelConfig,
        b: DeepseekV4FusedQKvRmsnormKernelConfig,
        tokens: Seq<u32>,
        cell: Seq<u32>,
        backend: Seq<char>,
    ) {
        let (x, y) = (a.description(), b.description());
        assert(x[0] == y[0]);
        assert(x[1] == y[1]);
        assert(x[2] == y[2]);
        assert(x[3] == y[3]);
        assert(x[4] == y[4]);
        assert(x[5] == y[5]);
    }
}

/// The epsilon is the double whose bits the configuration holds.
pub proof fn epsilon_is_carried(
    config: DeepseekV4FusedQKvRmsnormKernelConfig,
    cell: Seq<u32>,
    backend: Seq<char>,
)
    ensures
        DeepseekV4FusedQKvRmsnormSpec::fields(config, cell, backend)["rms_eps"@]
            == WireValue::Real(Real::Bits(config.rms_eps_bits)),
{
    reveal_strlit("rms_eps");
    reveal_strlit("dtype");
    reveal_strlit("backend");
    assert("rms_eps"@.len() == 7 && "rms_eps"@[0] == 'r');
    assert("dtype"@.len() == 5);
    assert("backend"@.len() == 7 && "backend"@[0] == 'b');
}

/// The kernel computes in the precision that is described as `dtype` and names no precision
/// that it keeps its cache in.
pub proof fn precisions_are_described(config: DeepseekV4FusedQKvRmsnormKernelConfig)
    ensures
        config.compute() matches Some(precision) && config.description()[5] == (
            "dtype"@,
            ConfigTerm::Precision(precision),
        ),
        config.kv() is None,
{
}

} // verus!
