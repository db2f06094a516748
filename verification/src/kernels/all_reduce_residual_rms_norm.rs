//! All-reduce, residual addition and RMS normalization in one launch.
//!
//! The launch cost depends on the `[num_tokens, hidden_dim]` block. The sweep stops at
//! the largest block that is still fused; larger blocks take the unfused path.

use crate::bridge::payload::{
    dtype_bytes, dtype_text, flag_value, number_value, text_value, ArgsPayload, DType, KernelKind,
    WireValue,
};
use crate::cache::CacheKind;
use crate::kernels::all_reduce_fusion::{cap_axis, capped_axis};
use crate::kernels::config::{
    fabric_text, field, fields_view, flag_of, link_of, names_of, number_of, precision_of, text_of,
    ConfigField, ConfigTerm, Fabric, KernelConfig,
};
use crate::kernels::engine::{
    carries, number_at, whole_units, CellPayloads, KernelSpec, SweepCoords,
};
use crate::sweep::{cell_on_axes, chained, pow2_points, whole, Axis, Ratio, SweepGrid};
use vstd::prelude::*;

verus! {

#[derive(Clone, Debug, PartialEq, Eq, Hash)]
pub struct AllReduceResidualRmsNormKernelConfig {
    pub backends: Vec<&'static str>,
    pub gpu_name: String,
    pub num_gpus: u32,
    pub hidden_dim: u32,
    pub dtype: DType,
    pub fabric: Fabric,
    pub strategy: String,
    pub launch_with_pdl: bool,
    pub fp32_acc: bool,
}

impl KernelConfig for AllReduceResidualRmsNormKernelConfig {
    const BACKENDS_FIELD: &'static str = "AllReduceResidualRmsNormKernelConfig.backends";

    open spec fn candidates(&self) -> Seq<&'static str> {
        self.backends@
    }

    open spec fn gpu(&self) -> Seq<char> {
        self.gpu_name@
    }

    open spec fn compute(&self) -> Option<DType> {
        Some(self.dtype)
    }

    open spec fn kv(&self) -> Option<DType> {
        None
    }

    open spec fn description(&self) -> Seq<(Seq<char>, ConfigTerm)> {
        seq![
            ("backends"@, ConfigTerm::Names(self.backends@)),
            ("gpu_name"@, ConfigTerm::Text(self.gpu_name@)),
            ("num_gpus"@, ConfigTerm::Number(self.num_gpus as nat)),
            ("hidden_dim"@, ConfigTerm::Number(self.hidden_dim as nat)),
            ("dtype"@, ConfigTerm::Precision(self.dtype)),
            ("fabric"@, ConfigTerm::Link(self.fabric)),
            ("strategy"@, ConfigTerm::Text(self.strategy@)),
            ("launch_with_pdl"@, ConfigTerm::Flag(self.launch_with_pdl)),
            ("fp32_acc"@, ConfigTerm::Flag(self.fp32_acc)),
        ]
    }

    fn backends(&self) -> (r: &Vec<&'static str>) {
        &self.backends
    }

    fn gpu_name(&self) -> (r: &str) {
        self.gpu_name.as_str()
    }

    fn compute_dtype(&self) -> (r: Option<DType>) {
        Some(self.dtype)
    }

    fn kv_dtype(&self) -> (r: Option<DType>) {
        None
    }

    fn describe_config(&self) -> (r: Vec<ConfigField>) {
        let r: Vec<ConfigField> = vec![
            field("backends", names_of(&self.backends)),
            field("gpu_name", text_of(self.gpu_name.as_str())),
            field("num_gpus", number_of(self.num_gpus)),
            field("hidden_dim", number_of(self.hidden_dim)),
            field("dtype", precision_of(self.dtype)),
            field("fabric", link_of(self.fabric)),
            field("strategy", text_of(self.strategy.as_str())),
            field("launch_with_pdl", flag_of(self.launch_with_pdl)),
            field("fp32_acc", flag_of(self.fp32_acc)),
        ];
        assert(fields_view(r@) =~= self.description());
        r
    }
}

#[derive(Clone, Copy, Debug, PartialEq, Eq, Hash)]
pub struct AllReduceResidualRmsNormKernelInput {
    pub num_tokens: u32,
}

impl SweepCoords for AllReduceResidualRmsNormKernelInput {
    open spec fn well_shaped(&self) -> bool {
        true
    }

    open spec fn position(&self) -> Seq<Ratio> {
        seq![whole(self.num_tokens as int)]
    }

    open spec fn axis_names() -> Seq<Seq<char>> {
        seq!["num_tokens"@]
    }

    fn is_well_shaped(&self) -> (r: bool) {
        true
    }

    fn coords(&self) -> (r: Vec<Ratio>) {
        let r: Vec<Ratio> = vec![Ratio::from_whole(self.num_tokens)];
        assert(r@ =~= self.position());
        r
    }

    fn coord_field_names() -> (r: Vec<&'static str>) {
        let r: Vec<&'static str> = vec!["num_tokens"];
        assert(r@.map_values(|name: &'static str| name@) =~= Self::axis_names());
        r
    }
}

pub struct AllReduceResidualRmsNormSpec;

impl KernelSpec for AllReduceResidualRmsNormSpec {
    type Config = AllReduceResidualRmsNormKernelConfig;

    type Input = AllReduceResidualRmsNormKernelInput;

    const KIND: KernelKind = "all_reduce_residual_rms_norm";

    open spec fn admits(config: AllReduceResidualRmsNormKernelConfig) -> bool {
        residual_fusion_ok(config)
    }

    open spec fn axes(
        config: AllReduceResidualRmsNormKernelConfig,
        tokens: Seq<u32>,
    ) -> Seq<Seq<u32>> {
        seq![
            capped_axis(chained(pow2_points(0, 4), tokens), residual_token_limit(config)),
        ]
    }

    open spec fn units(axes: Seq<Seq<u32>>) -> Seq<u32> {
        whole_units(axes)
    }

    open spec fn table(backend: Seq<char>) -> CacheKind {
        CacheKind::Cache1DLinear
    }

    open spec fn masks() -> bool {
        false
    }

    open spec fn judges(config: AllReduceResidualRmsNormKernelConfig, cell: Seq<u32>) -> bool {
        true
    }

    open spec fn infeasible(config: AllReduceResidualRmsNormKernelConfig, cell: Seq<u32>) -> bool {
        false
    }

    open spec fn table_position(
        config: AllReduceResidualRmsNormKernelConfig,
        input: AllReduceResidualRmsNormKernelInput,
    ) -> Seq<Ratio> {
        input.position()
    }

    open spec fn answers(
        config: AllReduceResidualRmsNormKernelConfig,
        input: AllReduceResidualRmsNormKernelInput,
    ) -> bool {
        input.well_shaped()
    }

    fn profile_kind() -> (r: KernelKind) {
        Self::KIND
    }

    fn can_sweep(config: &AllReduceResidualRmsNormKernelConfig) -> (r: bool) {
        (config.num_gpus == 2 || config.num_gpus == 4 || config.num_gpus == 8) && config.hidden_dim > 0
    }

    fn sweep_grid(
        config: &AllReduceResidualRmsNormKernelConfig,
        tokens: &Vec<u32>,
    ) -> (r: SweepGrid) {
        let limit: u32 = Self::max_fused_tokens(config);
        let a0: Vec<u32> = cap_axis(Axis::chain(Axis::pow2(0, 4), tokens), limit);
        let r = SweepGrid::new(vec![a0]);
        proof {
            assert(r.points() =~= Self::axes(*config, tokens@));
            assert(r.scale() =~= whole_units(r.points()));
        }
        r
    }

    fn cache_kind(backend: &str) -> (r: CacheKind) {
        CacheKind::Cache1DLinear
    }

    fn has_mask() -> (r: bool) {
        false
    }

    fn is_infeasible(config: &AllReduceResidualRmsNormKernelConfig, cell: &Vec<u32>) -> (r: bool) {
        false
    }

    fn can_answer(
        config: &AllReduceResidualRmsNormKernelConfig,
        input: &AllReduceResidualRmsNormKernelInput,
    ) -> (r: bool) {
        input.is_well_shaped()
    }

    fn cache_coords(
        config: &AllReduceResidualRmsNormKernelConfig,
        input: &AllReduceResidualRmsNormKernelInput,
    ) -> (r: Vec<Ratio>) {
        input.coords()
    }

    proof fn sweep_fits_table(
        config: AllReduceResidualRmsNormKernelConfig,
        tokens: Seq<u32>,
        backend: Seq<char>,
    ) {
    }

    proof fn sweep_is_judged(
        config: AllReduceResidualRmsNormKernelConfig,
        tokens: Seq<u32>,
        index: nat,
    ) {
    }

    proof fn queries_fit_table(
        config: AllReduceResidualRmsNormKernelConfig,
        input: AllReduceResidualRmsNormKernelInput,
        backend: Seq<char>,
    ) {
    }
}

impl CellPayloads for AllReduceResidualRmsNormSpec {
    open spec fn covers(config: AllReduceResidualRmsNormKernelConfig, cell: Seq<u32>) -> bool {
        cell.len() == 1
    }

    open spec fn enumerates(config: AllReduceResidualRmsNormKernelConfig) -> bool {
        true
    }

    open spec fn fields(
        config: AllReduceResidualRmsNormKernelConfig,
        cell: Seq<u32>,
        backend: Seq<char>,
    ) -> Map<Seq<char>, WireValue> {
        Map::<Seq<char>, WireValue>::empty()
            .insert("num_gpus"@, WireValue::Number(config.num_gpus as nat))
            .insert("num_tokens"@, WireValue::Number(cell[0] as nat))
            .insert("hidden_dim"@, WireValue::Number(config.hidden_dim as nat))
            .insert("dtype"@, WireValue::Text(dtype_text(config.dtype)))
            .insert("fabric"@, WireValue::Text(fabric_text(config.fabric)))
            .insert("strategy"@, WireValue::Text(config.strategy@))
            .insert("launch_with_pdl"@, WireValue::Flag(config.launch_with_pdl))
            .insert("trigger_completion_at_end"@, WireValue::Flag(cell[0] > 16))
            .insert("fp32_acc"@, WireValue::Flag(config.fp32_acc))
            .insert("backend"@, WireValue::Text(backend))
    }

    fn can_enumerate(config: &AllReduceResidualRmsNormKernelConfig) -> (r: bool) {
        true
    }

    fn cell_payload(
        config: &AllReduceResidualRmsNormKernelConfig,
        cell: &Vec<u32>,
        backend: &str,
    ) -> (r: ArgsPayload) {
        ArgsPayload::new()
            .with("num_gpus", number_value(config.num_gpus))
            .with("num_tokens", number_value(cell[0]))
            .with("hidden_dim", number_value(config.hidden_dim))
            .with("dtype", text_value(config.dtype.as_str()))
            .with("fabric", text_value(config.fabric.as_str()))
            .with("strategy", text_value(config.strategy.as_str()))
            .with("launch_with_pdl", flag_value(config.launch_with_pdl))
            .with("trigger_completion_at_end", flag_value(cell[0] > 16))
            .with("fp32_acc", flag_value(config.fp32_acc))
            .with("backend", text_value(backend))
    }

    proof fn sweep_is_covered(
        config: AllReduceResidualRmsNormKernelConfig,
        tokens: Seq<u32>,
        index: nat,
    ) {
        cell_on_axes(Self::axes(config, tokens), index);
    }

    proof fn fields_name_backend(
        config: AllReduceResidualRmsNormKernelConfig,
        cell: Seq<u32>,
        backend: Seq<char>,
    ) {
    }

    open spec fn describes(
        config: AllReduceResidualRmsNormKernelConfig,
        fields: Map<Seq<char>, WireValue>,
        input: AllReduceResidualRmsNormKernelInput,
    ) -> bool {
        number_at(fields, "num_tokens"@) == input.num_tokens
    }

    open spec fn occurs(config: AllReduceResidualRmsNormKernelConfig, cell: Seq<u32>) -> bool {
        true
    }

    open spec fn kept_back() -> Set<Seq<char>> {
        set!["backends"@, "gpu_name"@]
    }

    proof fn payload_stands_at_its_cell(
        config: AllReduceResidualRmsNormKernelConfig,
        tokens: Seq<u32>,
        index: nat,
        backend: Seq<char>,
        input: AllReduceResidualRmsNormKernelInput,
    ) {
        cell_on_axes(Self::axes(config, tokens), index);
        reveal_strlit("num_tokens");
        reveal_strlit("hidden_dim");
        reveal_strlit("dtype");
        reveal_strlit("fabric");
        reveal_strlit("strategy");
        reveal_strlit("launch_with_pdl");
        reveal_strlit("trigger_completion_at_end");
        reveal_strlit("fp32_acc");
        reveal_strlit("backend");
        assert("num_tokens"@.len() == 10 && "num_tokens"@[0] == 'n');
        assert("hidden_dim"@.len() == 10 && "hidden_dim"@[0] == 'h');
        assert("dtype"@.len() == 5);
        assert("fabric"@.len() == 6);
        assert("strategy"@.len() == 8);
        assert("launch_with_pdl"@.len() == 15);
        assert("trigger_completion_at_end"@.len() == 25);
        assert("fp32_acc"@.len() == 8);
        assert("backend"@.len() == 7);
    }

    proof fn payload_carries_config(
        config: AllReduceResidualRmsNormKernelConfig,
        cell: Seq<u32>,
        backend: Seq<char>,
        i: int,
    ) {
        reveal_strlit("num_gpus");
        reveal_strlit("num_tokens");
        reveal_strlit("hidden_dim");
        reveal_strlit("dtype");
        reveal_strlit("fabric");
        reveal_strlit("strategy");
        reveal_strlit("launch_with_pdl");
        reveal_strlit("trigger_completion_at_end");
        reveal_strlit("fp32_acc");
        reveal_strlit("backend");
        assert("num_gpus"@.len() == 8 && "num_gpus"@[0] == 'n');
        assert("num_tokens"@.len() == 10 && "num_tokens"@[0] == 'n');
        assert("hidden_dim"@.len() == 10 && "hidden_dim"@[0] == 'h');
        assert("dtype"@.len() == 5);
        assert("fabric"@.len() == 6);
        assert("strategy"@.len() == 8 && "strategy"@[0] == 's');
        assert("launch_with_pdl"@.len() == 15);
        assert("trigger_completion_at_end"@.len() == 25);
        assert("fp32_acc"@.len() == 8 && "fp32_acc"@[0] == 'f');
        assert("backend"@.len() == 7);
        let fields = Self::fields(config, cell, backend);
        let terms = config.description();
        assert(carries(fields, terms[2]));
        assert(carries(fields, terms[3]));
        assert(carries(fields, terms[4]));
        assert(carries(fields, terms[5]));
        assert(carries(fields, terms[6]));
        assert(carries(fields, terms[7]));
        assert(carries(fields, terms[8]));
    }

    proof fn described_alike_is_profiled_alike(
        a: AllReduceResidualRmsNormKernelConfig,
        b: AllReduceResidualRmsNormKernelConfig,
        tokens: Seq<u32>,
        cell: Seq<u32>,
        backend: Seq<char>,
    ) {
        let (x, y) = (a.description(), b.description());
        assert(x[0] == y[0]);
        assert(x[1] == y[1]);
        assert(x[2] == y[2]);
        assert(x[3] == y[3]);
        assert(x[4] == y[4]);
        assert(x[5] == y[5]);
        assert(x[6] == y[6]);
        assert(x[7] == y[7]);
        assert(x[8] == y[8]);
    }
}

/// Bytes of the largest fused block for a group of GPUs.
pub open spec fn residual_workspace(num_gpus: u32) -> int {
    if num_gpus == 2 {
        0x400_0000
    } else if num_gpus == 4 {
        0x20_0000
    } else {
        0x8_0000
    }
}

/// Whether the fused launch exists for a configuration.
pub open spec fn residual_fusion_ok(config: AllReduceResidualRmsNormKernelConfig) -> bool {
    &&& config.num_gpus == 2 || config.num_gpus == 4 || config.num_gpus == 8
    &&& config.hidden_dim > 0
}

/// The most tokens whose block is still fused.
pub open spec fn residual_token_limit(config: AllReduceResidualRmsNormKernelConfig) -> int {
    residual_workspace(config.num_gpus) / (config.hidden_dim * dtype_bytes(config.dtype))
}

impl AllReduceResidualRmsNormSpec {
    /// Bytes of the largest fused block for a group of GPUs.
    fn max_fused_bytes(num_gpus: u32) -> (r: u64)
        requires
            num_gpus == 2 || num_gpus == 4 || num_gpus == 8,
        ensures
            r == residual_workspace(num_gpus),
    {
        if num_gpus == 2 {
            64 * 1024 * 1024
        } else if num_gpus == 4 {
            2 * 1024 * 1024
        } else {
            512 * 1024
        }
    }

    /// The most tokens whose block is still fused.
    pub fn max_fused_tokens(config: &AllReduceResidualRmsNormKernelConfig) -> (r: u32)
        requires
            residual_fusion_ok(*config),
        ensures
            r == residual_token_limit(*config),
    {
        let bytes: u64 = config.hidden_dim as u64;
        let size: u64 = config.dtype.size_bytes() as u64;
        assert(0 < bytes * size <= u32::MAX * 4) by (nonlinear_arith)
            requires
                0 < bytes <= u32::MAX,
                1 <= size <= 4,
        ;
        let limit: u64 = Self::max_fused_bytes(config.num_gpus);
        let per_token: u64 = bytes * size;
        let count: u64 = limit / per_token;
        assert(count <= limit) by (nonlinear_arith)
            requires
                count == limit / per_token,
                per_token > 0,
        ;
        count as u32
    }
}

/// Completion is triggered at the end from seventeen tokens on, and not for fewer.
pub proof fn completion_is_triggered_late(
    config: AllReduceResidualRmsNormKernelConfig,
    cell: Seq<u32>,
    backend: Seq<char>,
)
    ensures
        cell[0] >= 17 ==> AllReduceResidualRmsNormSpec::fields(
            config,
            cell,
            backend,
        )["trigger_completion_at_end"@] == WireValue::Flag(true),
        cell[0] <= 16 ==> AllReduceResidualRmsNormSpec::fields(
            config,
            cell,
            backend,
        )["trigger_completion_at_end"@] == WireValue::Flag(false),
{
    reveal_strlit("trigger_completion_at_end");
    reveal_strlit("fp32_acc");
    reveal_strlit("backend");
    assert("trigger_completion_at_end"@.len() == 25);
    assert("fp32_acc"@.len() == 8);
    assert("backend"@.len() == 7);
}

/// The kernel computes in the precision that is described as `dtype` and names no precision
/// that it keeps its cache in.
pub proof fn precisions_are_described(config: AllReduceResidualRmsNormKernelConfig)
    ensures
        config.compute() matches Some(precision) && config.description()[4] == (
            "dtype"@,
            ConfigTerm::Precision(precision),
        ),
        config.kv() is None,
{
}

} // verus!
