//! Generic elementwise pass, billed by the bytes it reads and writes.
//!
//! The byte rates per token are fixed; the token count is swept, and the wire carries
//! the resulting totals.

use crate::bridge::payload::{text_value, ArgsPayload, DType, KernelKind, PayloadValue, WireValue};
use crate::cache::CacheKind;
use crate::kernels::config::{
    copy_numbers, field, fields_view, names_of, number_of, text_of, ConfigField, ConfigTerm,
    KernelConfig,
};
use crate::kernels::engine::{number_at, whole_units, CellPayloads, KernelSpec, SweepCoords};
use crate::sweep::{cell_at, cell_on_axes, whole, Ratio, SweepGrid};
use vstd::prelude::*;

verus! {

#[derive(Clone, Debug, PartialEq, Eq, Hash)]
pub struct ElementwiseKernelConfig {
    pub backends: Vec<&'static str>,
    pub gpu_name: String,
    pub input_bytes_per_token: u32,
    pub output_bytes_per_token: u32,
}

impl KernelConfig for ElementwiseKernelConfig {
    const BACKENDS_FIELD: &'static str = "ElementwiseKernelConfig.backends";

    open spec fn candidates(&self) -> Seq<&'static str> {
        self.backends@
    }

    open spec fn gpu(&self) -> Seq<char> {
        self.gpu_name@
    }

    open spec fn compute(&self) -> Option<DType> {
        None
    }

    open spec fn kv(&self) -> Option<DType> {
        None
    }

    open spec fn description(&self) -> Seq<(Seq<char>, ConfigTerm)> {
        seq![
            ("backends"@, ConfigTerm::Names(self.backends@)),
            ("gpu_name"@, ConfigTerm::Text(self.gpu_name@)),
            ("input_bytes_per_token"@, ConfigTerm::Number(self.input_bytes_per_token as nat)),
            ("output_bytes_per_token"@, ConfigTerm::Number(self.output_bytes_per_token as nat)),
        ]
    }

    fn backends(&self) -> (r: &Vec<&'static str>) {
        &self.backends
    }

    fn gpu_name(&self) -> (r: &str) {
        self.gpu_name.as_str()
    }

    fn compute_dtype(&self) -> (r: Option<DType>) {
        None
    }

    fn kv_dtype(&self) -> (r: Option<DType>) {
        None
    }

    fn describe_config(&self) -> (r: Vec<ConfigField>) {
        let r: Vec<ConfigField> = vec![
            field("backends", names_of(&self.backends)),
            field("gpu_name", text_of(self.gpu_name.as_str())),
            field("input_bytes_per_token", number_of(self.input_bytes_per_token)),
            field("output_bytes_per_token", number_of(self.output_bytes_per_token)),
        ];
        assert(fields_view(r@) =~= self.description());
        r
    }
}

#[derive(Clone, Copy, Debug, PartialEq, Eq, Hash)]
pub struct ElementwiseKernelInput {
    pub num_tokens: u32,
}

impl SweepCoords for ElementwiseKernelInput {
    open spec fn well_shaped(&self) -> bool {
        true
    }

    open spec fn position(&self) -> Seq<Ratio> {
        seq![whole(self.num_tokens as int)]
    }

    open spec fn axis_names() -> Seq<Seq<char>> {
        seq!["num_tokens"@]
    }

    fn is_well_shaped(&self) -> (r: bool) {
        true
    }

    fn coords(&self) -> (r: Vec<Ratio>) {
        let r: Vec<Ratio> = vec![Ratio::from_whole(self.num_tokens)];
        assert(r@ =~= self.position());
        r
    }

    fn coord_field_names() -> (r: Vec<&'static str>) {
        let r: Vec<&'static str> = vec!["num_tokens"];
        assert(r@.map_values(|name: &'static str| name@) =~= Self::axis_names());
        r
    }
}

pub struct ElementwiseSpec;

impl KernelSpec for ElementwiseSpec {
    type Config = ElementwiseKernelConfig;

    type Input = ElementwiseKernelInput;

    const KIND: KernelKind = "elementwise";

    open spec fn admits(config: ElementwiseKernelConfig) -> bool {
        true
    }

    open spec fn axes(config: ElementwiseKernelConfig, tokens: Seq<u32>) -> Seq<Seq<u32>> {
        seq![tokens]
    }

    open spec fn units(axes: Seq<Seq<u32>>) -> Seq<u32> {
        whole_units(axes)
    }

    open spec fn table(backend: Seq<char>) -> CacheKind {
        CacheKind::Cache1DLinear
    }

    open spec fn masks() -> bool {
        false
    }

    open spec fn judges(config: ElementwiseKernelConfig, cell: Seq<u32>) -> bool {
        true
    }

    open spec fn infeasible(config: ElementwiseKernelConfig, cell: Seq<u32>) -> bool {
        false
    }

    open spec fn table_position(
        config: ElementwiseKernelConfig,
        input: ElementwiseKernelInput,
    ) -> Seq<Ratio> {
        input.position()
    }

    open spec fn answers(config: ElementwiseKernelConfig, input: ElementwiseKernelInput) -> bool {
        input.well_shaped()
    }

    fn profile_kind() -> (r: KernelKind) {
        Self::KIND
    }

    fn can_sweep(config: &ElementwiseKernelConfig) -> (r: bool) {
        true
    }

    fn sweep_grid(config: &ElementwiseKernelConfig, tokens: &Vec<u32>) -> (r: SweepGrid) {
        let a0: Vec<u32> = copy_numbers(tokens);
        let r = SweepGrid::new(vec![a0]);
        proof {
            assert(r.points() =~= Self::axes(*config, tokens@));
            assert(r.scale() =~= whole_units(r.points()));
        }
        r
    }

    fn cache_kind(backend: &str) -> (r: CacheKind) {
        CacheKind::Cache1DLinear
    }

    fn has_mask() -> (r: bool) {
        false
    }

    fn is_infeasible(config: &ElementwiseKernelConfig, cell: &Vec<u32>) -> (r: bool) {
        false
    }

    fn can_answer(config: &ElementwiseKernelConfig, input: &ElementwiseKernelInput) -> (r: bool) {
        input.is_well_shaped()
    }

    fn cache_coords(
        config: &ElementwiseKernelConfig,
        input: &ElementwiseKernelInput,
    ) -> (r: Vec<Ratio>) {
        input.coords()
    }

    proof fn sweep_fits_table(
        config: ElementwiseKernelConfig,
        tokens: Seq<u32>,
        backend: Seq<char>,
    ) {
    }

    proof fn sweep_is_judged(config: ElementwiseKernelConfig, tokens: Seq<u32>, index: nat) {
    }

    proof fn queries_fit_table(
        config: ElementwiseKernelConfig,
        input: ElementwiseKernelInput,
        backend: Seq<char>,
    ) {
    }
}

impl CellPayloads for ElementwiseSpec {
    open spec fn covers(config: ElementwiseKernelConfig, cell: Seq<u32>) -> bool {
        cell.len() == 1
    }

    open spec fn enumerates(config: ElementwiseKernelConfig) -> bool {
        true
    }

    open spec fn fields(config: ElementwiseKernelConfig, cell: Seq<u32>, backend: Seq<char>) -> Map<
        Seq<char>,
        WireValue,
    > {
        Map::<Seq<char>, WireValue>::empty()
            .insert(
                "input_size_bytes"@,
                WireValue::Number((config.input_bytes_per_token * cell[0]) as nat),
            )
            .insert(
                "output_size_bytes"@,
                WireValue::Number((config.output_bytes_per_token * cell[0]) as nat),
            )
            .insert("backend"@, WireValue::Text(backend))
    }

    fn can_enumerate(config: &ElementwiseKernelConfig) -> (r: bool) {
        true
    }

    fn cell_payload(
        config: &ElementwiseKernelConfig,
        cell: &Vec<u32>,
        backend: &str,
    ) -> (r: ArgsPayload) {
        ArgsPayload::new()
            .with("input_size_bytes", total_bytes(config.input_bytes_per_token, cell[0]))
            .with("output_size_bytes", total_bytes(config.output_bytes_per_token, cell[0]))
            .with("backend", text_value(backend))
    }

    proof fn sweep_is_covered(config: ElementwiseKernelConfig, tokens: Seq<u32>, index: nat) {
        cell_on_axes(Self::axes(config, tokens), index);
    }

    proof fn fields_name_backend(
        config: ElementwiseKernelConfig,
        cell: Seq<u32>,
        backend: Seq<char>,
    ) {
    }

    open spec fn describes(
        config: ElementwiseKernelConfig,
        fields: Map<Seq<char>, WireValue>,
        input: ElementwiseKernelInput,
    ) -> bool {
        ||| config.input_bytes_per_token > 0 && number_at(fields, "input_size_bytes"@)
            == config.input_bytes_per_token * input.num_tokens
        ||| config.output_bytes_per_token > 0 && number_at(fields, "output_size_bytes"@)
            == config.output_bytes_per_token * input.num_tokens
    }

    open spec fn occurs(config: ElementwiseKernelConfig, cell: Seq<u32>) -> bool {
        true
    }

    open spec fn kept_back() -> Set<Seq<char>> {
        set!["backends"@, "gpu_name"@, "input_bytes_per_token"@, "output_bytes_per_token"@]
    }

    proof fn payload_stands_at_its_cell(
        config: ElementwiseKernelConfig,
        tokens: Seq<u32>,
        index: nat,
        backend: Seq<char>,
        input: ElementwiseKernelInput,
    ) {
        cell_on_axes(Self::axes(config, tokens), index);
        reveal_strlit("input_size_bytes");
        reveal_strlit("output_size_bytes");
        reveal_strlit("backend");
        assert("input_size_bytes"@.len() == 16);
        assert("output_size_bytes"@.len() == 17);
        assert("backend"@.len() == 7);
        let cell = cell_at(Self::axes(config, tokens), index);
        let rows = cell[0] as int;
        let tokens_read = input.num_tokens as int;
        if config.input_bytes_per_token * input.num_tokens != config.input_bytes_per_token * cell[0]
            || config.input_bytes_per_token == 0 {
            let rate = config.output_bytes_per_token as int;
            assert(rows == tokens_read) by (nonlinear_arith)
                requires
                    rate > 0,
                    rate * rows == rate * tokens_read,
            ;
        } else {
            let rate = config.input_bytes_per_token as int;
            assert(rows == tokens_read) by (nonlinear_arith)
                requires
                    rate > 0,
                    rate * rows == rate * tokens_read,
            ;
        }
    }

    proof fn payload_carries_config(
        config: ElementwiseKernelConfig,
        cell: Seq<u32>,
        backend: Seq<char>,
        i: int,
    ) {
    }

    proof fn described_alike_is_profiled_alike(
        a: ElementwiseKernelConfig,
        b: ElementwiseKernelConfig,
        tokens: Seq<u32>,
        cell: Seq<u32>,
        backend: Seq<char>,
    ) {
        let (x, y) = (a.description(), b.description());
        assert(x[0] == y[0]);
        assert(x[1] == y[1]);
        assert(x[2] == y[2]);
        assert(x[3] == y[3]);
    }
}

/// Bytes moved for a token count at a fixed rate.
fn total_bytes(rate: u32, tokens: u32) -> (r: PayloadValue)
    ensures
        r@ == WireValue::Number((rate * tokens) as nat),
{
    assert(0 <= rate * tokens <= u64::MAX) by (nonlinear_arith)
        requires
            0 <= rate <= u32::MAX,
            0 <= tokens <= u32::MAX,
    ;
    PayloadValue::Number(rate as u64 * tokens as u64)
}

/// The kernel names no precision that it computes in and names no precision that it keeps
/// its cache in.
pub proof fn precisions_are_described(config: ElementwiseKernelConfig)
    ensures
        config.compute() is None,
        config.kv() is None,
{
}

} // verus!
