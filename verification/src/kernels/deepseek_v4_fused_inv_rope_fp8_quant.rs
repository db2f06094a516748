//! Inverse rotary embedding fused with grouped FP8 quantization.
//!
//! The launch switches from one to four tokens per program at 512 tokens; the sweep
//! keeps both sides of that boundary and stops at 8192 tokens.

use crate::bridge::payload::{number_value, text_value, ArgsPayload, DType, KernelKind, WireValue};
use crate::cache::CacheKind;
use crate::kernels::config::{
    field, fields_view, names_of, text_of, ConfigField, ConfigTerm, KernelConfig,
};
use crate::kernels::engine::{number_at, whole_units, CellPayloads, KernelSpec, SweepCoords};
use crate::sweep::{
    ascending, ascending_of, at_most, cell_on_axes, chained, pow2_points, whole, Axis, Ratio,
    SweepGrid,
};
use vstd::prelude::*;

verus! {

#[derive(Clone, Debug, PartialEq, Eq, Hash)]
pub struct DeepseekV4FusedInvRopeFp8QuantKernelConfig {
    pub backends: Vec<&'static str>,
    pub gpu_name: String,
}

impl KernelConfig for DeepseekV4FusedInvRopeFp8QuantKernelConfig {
    const BACKENDS_FIELD: &'static str = "DeepseekV4FusedInvRopeFp8QuantKernelConfig.backends";

    open spec fn candidates(&self) -> Seq<&'static str> {
        self.backends@
    }

    open spec fn gpu(&self) -> Seq<char> {
        self.gpu_name@
    }

    open spec fn compute(&self) -> Option<DType> {
        None
    }

    open spec fn kv(&self) -> Option<DType> {
        None
    }

    open spec fn description(&self) -> Seq<(Seq<char>, ConfigTerm)> {
        seq![
            ("backends"@, ConfigTerm::Names(self.backends@)),
            ("gpu_name"@, ConfigTerm::Text(self.gpu_name@)),
        ]
    }

    fn backends(&self) -> (r: &Vec<&'static str>) {
        &self.backends
    }

    fn gpu_name(&self) -> (r: &str) {
        self.gpu_name.as_str()
    }

    fn compute_dtype(&self) -> (r: Option<DType>) {
        None
    }

    fn kv_dtype(&self) -> (r: Option<DType>) {
        None
    }

    fn describe_config(&self) -> (r: Vec<ConfigField>) {
        let r: Vec<ConfigField> = vec![
            field("backends", names_of(&self.backends)),
            field("gpu_name", text_of(self.gpu_name.as_str())),
        ];
        assert(fields_view(r@) =~= self.description());
        r
    }
}

#[derive(Clone, Copy, Debug, PartialEq, Eq, Hash)]
pub struct DeepseekV4FusedInvRopeFp8QuantKernelInput {
    pub num_tokens: u32,
}

impl SweepCoords for DeepseekV4FusedInvRopeFp8QuantKernelInput {
    open spec fn well_shaped(&self) -> bool {
        true
    }

    open spec fn position(&self) -> Seq<Ratio> {
        seq![whole(self.num_tokens as int)]
    }

    open spec fn axis_names() -> Seq<Seq<char>> {
        seq!["num_tokens"@]
    }

    fn is_well_shaped(&self) -> (r: bool) {
        true
    }

    fn coords(&self) -> (r: Vec<Ratio>) {
        let r: Vec<Ratio> = vec![Ratio::from_whole(self.num_tokens)];
        assert(r@ =~= self.position());
        r
    }

    fn coord_field_names() -> (r: Vec<&'static str>) {
        let r: Vec<&'static str> = vec!["num_tokens"];
        assert(r@.map_values(|name: &'static str| name@) =~= Self::axis_names());
        r
    }
}

pub struct DeepseekV4FusedInvRopeFp8QuantSpec;

impl KernelSpec for DeepseekV4FusedInvRopeFp8QuantSpec {
    type Config = DeepseekV4FusedInvRopeFp8QuantKernelConfig;

    type Input = DeepseekV4FusedInvRopeFp8QuantKernelInput;

    const KIND: KernelKind = "deepseek_v4_fused_inv_rope_fp8_quant";

    open spec fn admits(config: DeepseekV4FusedInvRopeFp8QuantKernelConfig) -> bool {
        true
    }

    open spec fn axes(
        config: DeepseekV4FusedInvRopeFp8QuantKernelConfig,
        tokens: Seq<u32>,
    ) -> Seq<Seq<u32>> {
        seq![
            ascending_of(
                chained(
                    chained(pow2_points(0, 8), seq![511u32, 512, 513]),
                    at_most(tokens, 8192),
                ),
            ),
        ]
    }

    open spec fn units(axes: Seq<Seq<u32>>) -> Seq<u32> {
        whole_units(axes)
    }

    open spec fn table(backend: Seq<char>) -> CacheKind {
        CacheKind::Cache1DLinear
    }

    open spec fn masks() -> bool {
        false
    }

    open spec fn judges(
        config: DeepseekV4FusedInvRopeFp8QuantKernelConfig,
        cell: Seq<u32>,
    ) -> bool {
        true
    }

    open spec fn infeasible(
        config: DeepseekV4FusedInvRopeFp8QuantKernelConfig,
        cell: Seq<u32>,
    ) -> bool {
        false
    }

    open spec fn table_position(
        config: DeepseekV4FusedInvRopeFp8QuantKernelConfig,
        input: DeepseekV4FusedInvRopeFp8QuantKernelInput,
    ) -> Seq<Ratio> {
        input.position()
    }

    open spec fn answers(
        config: DeepseekV4FusedInvRopeFp8QuantKernelConfig,
        input: DeepseekV4FusedInvRopeFp8QuantKernelInput,
    ) -> bool {
        input.well_shaped()
    }

    fn profile_kind() -> (r: KernelKind) {
        Self::KIND
    }

    fn can_sweep(config: &DeepseekV4FusedInvRopeFp8QuantKernelConfig) -> (r: bool) {
        true
    }

    fn sweep_grid(
        config: &DeepseekV4FusedInvRopeFp8QuantKernelConfig,
        tokens: &Vec<u32>,
    ) -> (r: SweepGrid) {
        let boundary: Vec<u32> = vec![511, 512, 513];
        let short: Vec<u32> = Axis::up_to(tokens, 8192);
        assert(boundary@ =~= seq![511u32, 512, 513]);
        let a0: Vec<u32> = ascending(&Axis::chain(Axis::chain(Axis::pow2(0, 8), &boundary), &short));
        let r = SweepGrid::new(vec![a0]);
        proof {
            assert(r.points() =~= Self::axes(*config, tokens@));
            assert(r.scale() =~= whole_units(r.points()));
        }
        r
    }

    fn cache_kind(backend: &str) -> (r: CacheKind) {
        CacheKind::Cache1DLinear
    }

    fn has_mask() -> (r: bool) {
        false
    }

    fn is_infeasible(
        config: &DeepseekV4FusedInvRopeFp8QuantKernelConfig,
        cell: &Vec<u32>,
    ) -> (r: bool) {
        false
    }

    fn can_answer(
        config: &DeepseekV4FusedInvRopeFp8QuantKernelConfig,
        input: &DeepseekV4FusedInvRopeFp8QuantKernelInput,
    ) -> (r: bool) {
        input.is_well_shaped()
    }

    fn cache_coords(
        config: &DeepseekV4FusedInvRopeFp8QuantKernelConfig,
        input: &DeepseekV4FusedInvRopeFp8QuantKernelInput,
    ) -> (r: Vec<Ratio>) {
        input.coords()
    }

    proof fn sweep_fits_table(
        config: DeepseekV4FusedInvRopeFp8QuantKernelConfig,
        tokens: Seq<u32>,
        backend: Seq<char>,
    ) {
    }

    proof fn sweep_is_judged(
        config: DeepseekV4FusedInvRopeFp8QuantKernelConfig,
        tokens: Seq<u32>,
        index: nat,
    ) {
    }

    proof fn queries_fit_table(
        config: DeepseekV4FusedInvRopeFp8QuantKernelConfig,
        input: DeepseekV4FusedInvRopeFp8QuantKernelInput,
        backend: Seq<char>,
    ) {
    }
}

impl CellPayloads for DeepseekV4FusedInvRopeFp8QuantSpec {
    open spec fn covers(
        config: DeepseekV4FusedInvRopeFp8QuantKernelConfig,
        cell: Seq<u32>,
    ) -> bool {
        cell.len() == 1
    }

    open spec fn enumerates(config: DeepseekV4FusedInvRopeFp8QuantKernelConfig) -> bool {
        true
    }

    open spec fn fields(
        config: DeepseekV4FusedInvRopeFp8QuantKernelConfig,
        cell: Seq<u32>,
        backend: Seq<char>,
    ) -> Map<Seq<char>, WireValue> {
        Map::<Seq<char>, WireValue>::empty()
            .insert("num_tokens"@, WireValue::Number(cell[0] as nat))
            .insert("backend"@, WireValue::Text(backend))
    }

    fn can_enumerate(config: &DeepseekV4FusedInvRopeFp8QuantKernelConfig) -> (r: bool) {
        true
    }

    fn cell_payload(
        config: &DeepseekV4FusedInvRopeFp8QuantKernelConfig,
        cell: &Vec<u32>,
        backend: &str,
    ) -> (r: ArgsPayload) {
        ArgsPayload::new()
            .with("num_tokens", number_value(cell[0]))
            .with("backend", text_value(backend))
    }

    proof fn sweep_is_covered(
        config: DeepseekV4FusedInvRopeFp8QuantKernelConfig,
        tokens: Seq<u32>,
        index: nat,
    ) {
        cell_on_axes(Self::axes(config, tokens), index);
    }

    proof fn fields_name_backend(
        config: DeepseekV4FusedInvRopeFp8QuantKernelConfig,
        cell: Seq<u32>,
        backend: Seq<char>,
    ) {
    }

    open spec fn describes(
        config: DeepseekV4FusedInvRopeFp8QuantKernelConfig,
        fields: Map<Seq<char>, WireValue>,
        input: DeepseekV4FusedInvRopeFp8QuantKernelInput,
    ) -> bool {
        number_at(fields, "num_tokens"@) == input.num_tokens
    }

    open spec fn occurs(
        config: DeepseekV4FusedInvRopeFp8QuantKernelConfig,
        cell: Seq<u32>,
    ) -> bool {
        true
    }

    open spec fn kept_back() -> Set<Seq<char>> {
        set!["backends"@, "gpu_name"@]
    }

    proof fn payload_stands_at_its_cell(
        config: DeepseekV4FusedInvRopeFp8QuantKernelConfig,
        tokens: Seq<u32>,
        index: nat,
        backend: Seq<char>,
        input: DeepseekV4FusedInvRopeFp8QuantKernelInput,
    ) {
        cell_on_axes(Self::axes(config, tokens), index);
        reveal_strlit("num_tokens");
        reveal_strlit("backend");
        assert("num_tokens"@.len() == 10);
        assert("backend"@.len() == 7);
    }

    proof fn payload_carries_config(
        config: DeepseekV4FusedInvRopeFp8QuantKernelConfig,
        cell: Seq<u32>,
        backend: Seq<char>,
        i: int,
    ) {
    }

    proof fn described_alike_is_profiled_alike(
        a: DeepseekV4FusedInvRopeFp8QuantKernelConfig,
        b: DeepseekV4FusedInvRopeFp8QuantKernelConfig,
        tokens: Seq<u32>,
        cell: Seq<u32>,
        backend: Seq<char>,
    ) {
        let (x, y) = (a.description(), b.description());
        assert(x[0] == y[0]);
        assert(x[1] == y[1]);
    }
}

/// The kernel names no precision that it computes in and names no precision that it keeps
/// its cache in.
pub proof fn precisions_are_described(config: DeepseekV4FusedInvRopeFp8QuantKernelConfig)
    ensures
        config.compute() is None,
        config.kv() is None,
{
}

} // verus!
