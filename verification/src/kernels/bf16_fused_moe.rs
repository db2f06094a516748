//! Whole fused mixture-of-experts launch with unquantized weights.
//!
//! Routing, the gated up projection, the down projection and the final combine are one
//! measured launch. A launch is profiled with the rows that each expert receives, taken
//! from a prepared demand source.

use crate::bridge::payload::{
    dtype_text, number_value, text_value, ArgsPayload, DType, KernelKind, PayloadValue, WireValue,
};
use crate::cache::CacheKind;
use crate::dims::Dim;
use crate::expert_demand::rotation_keeps_rows;
use crate::expert_demand::{rotated, total, ExpertDemand, PreparedDemand};
use crate::kernels::config::{
    demand_of, demand_term, dimension_of, field, fields_view, names_of, number_of, precision_of,
    text_of, ConfigField, ConfigTerm, KernelConfig,
};
use crate::kernels::engine::{
    carries, number_at, numbers_at, text_at, whole_units, KernelSpec, SweepCoords,
};
use crate::sweep::{cell_at, cell_count, chained, whole, Axis, Ratio, SweepGrid};
use vstd::prelude::*;

verus! {

#[derive(Clone, Debug, PartialEq, Eq, Hash)]
pub struct Bf16FusedMoeKernelConfig {
    pub backends: Vec<&'static str>,
    pub gpu_name: String,
    pub hidden_size: Dim,
    pub intermediate_size: Dim,
    pub num_experts: Dim,
    pub num_local_experts: Dim,
    pub top_k: u32,
    pub dtype: DType,
    pub routing_method: String,
    pub n_group: u32,
    pub topk_group: u32,
    pub routed_scaling_numerator: u32,
    pub routed_scaling_denominator: u32,
    /// Where the routed demand of a profiled shape comes from.
    pub expert_demand: ExpertDemand,
    /// Which rank of the folded histogram is profiled.
    pub folded_rank_position: u32,
}

impl KernelConfig for Bf16FusedMoeKernelConfig {
    const BACKENDS_FIELD: &'static str = "Bf16FusedMoeKernelConfig.backends";

    open spec fn candidates(&self) -> Seq<&'static str> {
        self.backends@
    }

    open spec fn gpu(&self) -> Seq<char> {
        self.gpu_name@
    }

    open spec fn compute(&self) -> Option<DType> {
        Some(self.dtype)
    }

    open spec fn kv(&self) -> Option<DType> {
        None
    }

    open spec fn description(&self) -> Seq<(Seq<char>, ConfigTerm)> {
        seq![
            ("backends"@, ConfigTerm::Names(self.backends@)),
            ("gpu_name"@, ConfigTerm::Text(self.gpu_name@)),
            ("hidden_size"@, ConfigTerm::Dimension(self.hidden_size@)),
            ("intermediate_size"@, ConfigTerm::Dimension(self.intermediate_size@)),
            ("num_experts"@, ConfigTerm::Dimension(self.num_experts@)),
            ("num_local_experts"@, ConfigTerm::Dimension(self.num_local_experts@)),
            ("top_k"@, ConfigTerm::Number(self.top_k as nat)),
            ("dtype"@, ConfigTerm::Precision(self.dtype)),
            ("routing_method"@, ConfigTerm::Text(self.routing_method@)),
            ("n_group"@, ConfigTerm::Number(self.n_group as nat)),
            ("topk_group"@, ConfigTerm::Number(self.topk_group as nat)),
            ("routed_scaling_numerator"@, ConfigTerm::Number(self.routed_scaling_numerator as nat)),
            (
                "routed_scaling_denominator"@,
                ConfigTerm::Number(self.routed_scaling_denominator as nat),
            ),
            ("expert_demand"@, demand_term(self.expert_demand)),
            ("folded_rank_position"@, ConfigTerm::Number(self.folded_rank_position as nat)),
        ]
    }

    fn backends(&self) -> (r: &Vec<&'static str>) {
        &self.backends
    }

    fn gpu_name(&self) -> (r: &str) {
        self.gpu_name.as_str()
    }

    fn compute_dtype(&self) -> (r: Option<DType>) {
        Some(self.dtype)
    }

    fn kv_dtype(&self) -> (r: Option<DType>) {
        None
    }

    fn describe_config(&self) -> (r: Vec<ConfigField>) {
        let r: Vec<ConfigField> = vec![
            field("backends", names_of(&self.backends)),
            field("gpu_name", text_of(self.gpu_name.as_str())),
            field("hidden_size", dimension_of(&self.hidden_size)),
            field("intermediate_size", dimension_of(&self.intermediate_size)),
            field("num_experts", dimension_of(&self.num_experts)),
            field("num_local_experts", dimension_of(&self.num_local_experts)),
            field("top_k", number_of(self.top_k)),
            field("dtype", precision_of(self.dtype)),
            field("routing_method", text_of(self.routing_method.as_str())),
            field("n_group", number_of(self.n_group)),
            field("topk_group", number_of(self.topk_group)),
            field("routed_scaling_numerator", number_of(self.routed_scaling_numerator)),
            field("routed_scaling_denominator", number_of(self.routed_scaling_denominator)),
            field("expert_demand", demand_of(&self.expert_demand)),
            field("folded_rank_position", number_of(self.folded_rank_position)),
        ];
        assert(fields_view(r@) =~= self.description());
        r
    }
}

#[derive(Clone, Copy, Debug, PartialEq, Eq, Hash)]
pub struct Bf16FusedMoeKernelInput {
    pub num_tokens: u32,
}

impl SweepCoords for Bf16FusedMoeKernelInput {
    open spec fn well_shaped(&self) -> bool {
        true
    }

    open spec fn position(&self) -> Seq<Ratio> {
        seq![whole(self.num_tokens as int)]
    }

    open spec fn axis_names() -> Seq<Seq<char>> {
        seq!["num_tokens"@]
    }

    fn is_well_shaped(&self) -> (r: bool) {
        true
    }

    fn coords(&self) -> (r: Vec<Ratio>) {
        let r: Vec<Ratio> = vec![Ratio::from_whole(self.num_tokens)];
        assert(r@ =~= self.position());
        r
    }

    fn coord_field_names() -> (r: Vec<&'static str>) {
        let r: Vec<&'static str> = vec!["num_tokens"];
        assert(r@.map_values(|name: &'static str| name@) =~= Self::axis_names());
        r
    }
}

pub struct Bf16FusedMoeSpec;

impl KernelSpec for Bf16FusedMoeSpec {
    type Config = Bf16FusedMoeKernelConfig;

    type Input = Bf16FusedMoeKernelInput;

    const KIND: KernelKind = "bf16_fused_moe";

    open spec fn admits(config: Bf16FusedMoeKernelConfig) -> bool {
        config.expert_demand.axis_fits()
    }

    open spec fn axes(config: Bf16FusedMoeKernelConfig, tokens: Seq<u32>) -> Seq<Seq<u32>> {
        seq![config.expert_demand.axis(chained(seq![1u32, 4, 8, 16, 32, 48], tokens))]
    }

    open spec fn units(axes: Seq<Seq<u32>>) -> Seq<u32> {
        whole_units(axes)
    }

    open spec fn table(backend: Seq<char>) -> CacheKind {
        CacheKind::Cache1DLinear
    }

    open spec fn masks() -> bool {
        false
    }

    open spec fn judges(config: Bf16FusedMoeKernelConfig, cell: Seq<u32>) -> bool {
        true
    }

    open spec fn infeasible(config: Bf16FusedMoeKernelConfig, cell: Seq<u32>) -> bool {
        false
    }

    open spec fn table_position(
        config: Bf16FusedMoeKernelConfig,
        input: Bf16FusedMoeKernelInput,
    ) -> Seq<Ratio> {
        input.position()
    }

    open spec fn answers(config: Bf16FusedMoeKernelConfig, input: Bf16FusedMoeKernelInput) -> bool {
        input.well_shaped()
    }

    fn profile_kind() -> (r: KernelKind) {
        Self::KIND
    }

    fn can_sweep(config: &Bf16FusedMoeKernelConfig) -> (r: bool) {
        config.expert_demand.has_axis()
    }

    fn sweep_grid(config: &Bf16FusedMoeKernelConfig, tokens: &Vec<u32>) -> (r: SweepGrid) {
        let small: Vec<u32> = vec![1, 4, 8, 16, 32, 48];
        assert(small@ =~= seq![1u32, 4, 8, 16, 32, 48]);
        let a0: Vec<u32> = config.expert_demand.token_axis(Axis::chain(small, tokens));
        let r = SweepGrid::new(vec![a0]);
        proof {
            assert(r.points() =~= Self::axes(*config, tokens@));
            assert(r.scale() =~= whole_units(r.points()));
        }
        r
    }

    fn cache_kind(backend: &str) -> (r: CacheKind) {
        CacheKind::Cache1DLinear
    }

    fn has_mask() -> (r: bool) {
        false
    }

    fn is_infeasible(config: &Bf16FusedMoeKernelConfig, cell: &Vec<u32>) -> (r: bool) {
        false
    }

    fn can_answer(config: &Bf16FusedMoeKernelConfig, input: &Bf16FusedMoeKernelInput) -> (r: bool) {
        input.is_well_shaped()
    }

    fn cache_coords(
        config: &Bf16FusedMoeKernelConfig,
        input: &Bf16FusedMoeKernelInput,
    ) -> (r: Vec<Ratio>) {
        input.coords()
    }

    proof fn sweep_fits_table(
        config: Bf16FusedMoeKernelConfig,
        tokens: Seq<u32>,
        backend: Seq<char>,
    ) {
    }

    proof fn sweep_is_judged(config: Bf16FusedMoeKernelConfig, tokens: Seq<u32>, index: nat) {
    }

    proof fn queries_fit_table(
        config: Bf16FusedMoeKernelConfig,
        input: Bf16FusedMoeKernelInput,
        backend: Seq<char>,
    ) {
    }
}

/// Whether the profiled rank is one of those that the experts are spread over.
pub open spec fn rank_ok(config: Bf16FusedMoeKernelConfig) -> bool {
    let experts = config.num_experts@.fold();
    let local = config.num_local_experts@.fold();
    &&& local > 0
    &&& experts % local == 0
    &&& config.folded_rank_position * local + local <= experts
}

/// Whether the profiled rank is one of the ranks that the experts are split over.
pub fn has_rank(config: &Bf16FusedMoeKernelConfig) -> (r: bool)
    ensures
        r == rank_ok(*config),
{
    let experts: u32 = config.num_experts.get();
    let local: u32 = config.num_local_experts.get();
    if local == 0 || experts % local != 0 {
        return false;
    }
    let position: u32 = config.folded_rank_position;
    proof {
        assert(experts == local * (experts / local)) by (nonlinear_arith)
            requires
                local > 0,
                experts % local == 0,
        ;
        assert(position < experts / local <==> position * local + local <= experts)
            by (nonlinear_arith)
            requires
                local > 0,
                experts == local * (experts / local),
        ;
    }
    position < experts / local
}

/// Whether the demand source has a histogram over all experts for a token count.
pub open spec fn demand_resolved(
    config: Bf16FusedMoeKernelConfig,
    demand: &PreparedDemand,
    num_tokens: u32,
) -> bool {
    demand.fold_of(
        config.top_k,
        num_tokens,
        config.num_local_experts@.fold() as usize,
    ) matches Some(counts) && counts.len() == config.num_experts@.fold()
}

/// The rows per expert at a token count, those of the profiled rank first.
pub open spec fn demanded_rows(
    config: Bf16FusedMoeKernelConfig,
    demand: &PreparedDemand,
    num_tokens: u32,
) -> Seq<u32> {
    let local = config.num_local_experts@.fold();
    rotated(
        demand.fold_of(config.top_k, num_tokens, local as usize)->0,
        config.folded_rank_position * local,
    )
}

/// The wire fields of a token count.
pub open spec fn launch_fields(
    config: Bf16FusedMoeKernelConfig,
    num_tokens: u32,
    rows: Seq<u32>,
    backend: Seq<char>,
) -> Map<Seq<char>, WireValue> {
    Map::<Seq<char>, WireValue>::empty()
        .insert("backend"@, WireValue::Text(backend))
        .insert("num_tokens"@, WireValue::Number(num_tokens as nat))
        .insert("hidden_size"@, WireValue::Number(config.hidden_size@.fold() as nat))
        .insert("intermediate_size"@, WireValue::Number(config.intermediate_size@.fold() as nat))
        .insert("num_experts"@, WireValue::Number(config.num_experts@.fold() as nat))
        .insert("num_local_experts"@, WireValue::Number(config.num_local_experts@.fold() as nat))
        .insert("top_k"@, WireValue::Number(config.top_k as nat))
        .insert("dtype"@, WireValue::Text(dtype_text(config.dtype)))
        .insert("routing_method"@, WireValue::Text(config.routing_method@))
        .insert("n_group"@, WireValue::Number(config.n_group as nat))
        .insert("topk_group"@, WireValue::Number(config.topk_group as nat))
        .insert(
            "routed_scaling_numerator"@,
            WireValue::Number(config.routed_scaling_numerator as nat),
        )
        .insert(
            "routed_scaling_denominator"@,
            WireValue::Number(config.routed_scaling_denominator as nat),
        )
        .insert("per_expert_batches"@, WireValue::Numbers(rows))
}

/// The wire payload of a token count with the given rows per expert.
pub fn launch_payload(
    config: &Bf16FusedMoeKernelConfig,
    num_tokens: u32,
    per_expert_batches: Vec<u32>,
    backend: &str,
) -> (r: ArgsPayload)
    ensures
        r.wf(),
        r@ == launch_fields(*config, num_tokens, per_expert_batches@, backend@),
{
    ArgsPayload::new()
        .with("backend", text_value(backend))
        .with("num_tokens", number_value(num_tokens))
        .with("hidden_size", number_value(config.hidden_size.get()))
        .with("intermediate_size", number_value(config.intermediate_size.get()))
        .with("num_experts", number_value(config.num_experts.get()))
        .with("num_local_experts", number_value(config.num_local_experts.get()))
        .with("top_k", number_value(config.top_k))
        .with("dtype", text_value(config.dtype.as_str()))
        .with("routing_method", text_value(config.routing_method.as_str()))
        .with("n_group", number_value(config.n_group))
        .with("topk_group", number_value(config.topk_group))
        .with("routed_scaling_numerator", number_value(config.routed_scaling_numerator))
        .with("routed_scaling_denominator", number_value(config.routed_scaling_denominator))
        .with("per_expert_batches", PayloadValue::Numbers(per_expert_batches))
}

impl Bf16FusedMoeSpec {
    /// The wire payload of every cell, in order, with the rows that the demand source
    /// gives each expert.
    pub fn enumerate(
        config: &Bf16FusedMoeKernelConfig,
        grid: &SweepGrid,
        backend: &str,
        demand: &PreparedDemand,
    ) -> (r: Vec<ArgsPayload>)
        requires
            cell_count(grid.points()) <= usize::MAX,
            rank_ok(*config),
            forall|i: nat|
                i < cell_count(grid.points()) ==> (#[trigger] cell_at(grid.points(), i)).len() == 1
                    && demand_resolved(*config, demand, cell_at(grid.points(), i)[0]),
        ensures
            r@.len() == cell_count(grid.points()),
            forall|i: int|
                0 <= i < r@.len() ==> (#[trigger] r@[i]).wf() && r@[i]@ == ({
                    let tokens = cell_at(grid.points(), i as nat)[0];
                    launch_fields(*config, tokens, demanded_rows(*config, demand, tokens), backend@)
                }),
    {
        let experts: usize = config.num_experts.get() as usize;
        let local: usize = config.num_local_experts.get() as usize;
        let mut out: Vec<ArgsPayload> = Vec::new();
        let count: usize = grid.len();
        let mut i: usize = 0;
        while i < count
            invariant
                i <= count,
                count == cell_count(grid.points()),
                rank_ok(*config),
                experts == config.num_experts@.fold(),
                local == config.num_local_experts@.fold(),
                out@.len() == i,
                forall|j: nat|
                    j < cell_count(grid.points()) ==> (#[trigger] cell_at(grid.points(), j)).len()
                        == 1 && demand_resolved(*config, demand, cell_at(grid.points(), j)[0]),
                forall|j: int|
                    0 <= j < i ==> (#[trigger] out@[j]).wf() && out@[j]@ == ({
                        let tokens = cell_at(grid.points(), j as nat)[0];
                        launch_fields(
                            *config,
                            tokens,
                            demanded_rows(*config, demand, tokens),
                            backend@,
                        )
                    }),
            decreases count - i,
        {
            let cell: Vec<u32> = grid.cell(i);
            assert(demand_resolved(*config, demand, cell@[0]));
            let rows: Option<Vec<u32>> = demand.per_expert_batches(
                config.top_k,
                cell[0],
                experts,
                local,
                config.folded_rank_position,
            );
            if let Some(rows) = rows {
                out.push(launch_payload(config, cell[0], rows, backend));
            }
            i += 1;
        }
        out
    }
}

/// The rows of a launch are those that the demand source folded for its token count,
/// none lost and none added; those of the profiled rank's own experts come first.
pub proof fn launch_keeps_demand(
    config: Bf16FusedMoeKernelConfig,
    demand: &PreparedDemand,
    num_tokens: u32,
)
    requires
        rank_ok(config),
        demand_resolved(config, demand, num_tokens),
    ensures
        ({
            let counts = demand.fold_of(
                config.top_k,
                num_tokens,
                config.num_local_experts@.fold() as usize,
            )->0;
            let rows = demanded_rows(config, demand, num_tokens);
            &&& rows.len() == counts.len()
            &&& total(rows) == total(counts)
            &&& rows.to_multiset() == counts.to_multiset()
            &&& forall|i: int|
                0 <= i < config.num_local_experts@.fold() ==> #[trigger] rows[i]
                    == counts[config.folded_rank_position * config.num_local_experts@.fold() + i]
        }),
{
    let local = config.num_local_experts@.fold();
    let counts = demand.fold_of(config.top_k, num_tokens, local as usize)->0;
    assert(0 <= config.folded_rank_position * local) by (nonlinear_arith)
        requires
            0 <= config.folded_rank_position,
            local > 0,
    ;
    rotation_keeps_rows(counts, config.folded_rank_position * local);
}

/// The names of the configuration that a launch does not carry as they are.
pub open spec fn kept_back() -> Set<Seq<char>> {
    set!["backends"@, "gpu_name"@, "expert_demand"@, "folded_rank_position"@]
}

/// A launch is profiled under the configuration that describes the kernel: every field of
/// the description is carried under its own name, but for those kept back. It carries its
/// tokens, its rows and its backend besides.
pub proof fn launch_carries_config(
    config: Bf16FusedMoeKernelConfig,
    num_tokens: u32,
    rows: Seq<u32>,
    backend: Seq<char>,
    i: int,
)
    requires
        0 <= i < config.description().len(),
    ensures
        kept_back().contains(config.description()[i].0) || carries(
            launch_fields(config, num_tokens, rows, backend),
            config.description()[i],
        ),
        number_at(launch_fields(config, num_tokens, rows, backend), "num_tokens"@) == num_tokens,
        numbers_at(launch_fields(config, num_tokens, rows, backend), "per_expert_batches"@) == rows,
        text_at(launch_fields(config, num_tokens, rows, backend), "backend"@) == backend,
{
    reveal_strlit("backend");
    reveal_strlit("num_tokens");
    reveal_strlit("hidden_size");
    reveal_strlit("intermediate_size");
    reveal_strlit("num_experts");
    reveal_strlit("num_local_experts");
    reveal_strlit("top_k");
    reveal_strlit("dtype");
    reveal_strlit("routing_method");
    reveal_strlit("n_group");
    reveal_strlit("topk_group");
    reveal_strlit("routed_scaling_numerator");
    reveal_strlit("routed_scaling_denominator");
    reveal_strlit("per_expert_batches");
    assert("backend"@.len() == 7 && "backend"@[0] == 'b');
    assert("num_tokens"@.len() == 10 && "num_tokens"@[0] == 'n');
    assert("hidden_size"@.len() == 11 && "hidden_size"@[0] == 'h');
    assert("intermediate_size"@.len() == 17 && "intermediate_size"@[0] == 'i');
    assert("num_experts"@.len() == 11 && "num_experts"@[0] == 'n');
    assert("num_local_experts"@.len() == 17 && "num_local_experts"@[0] == 'n');
    assert("top_k"@.len() == 5 && "top_k"@[0] == 't');
    assert("dtype"@.len() == 5 && "dtype"@[0] == 'd');
    assert("routing_method"@.len() == 14);
    assert("n_group"@.len() == 7 && "n_group"@[0] == 'n');
    assert("topk_group"@.len() == 10 && "topk_group"@[0] == 't');
    assert("routed_scaling_numerator"@.len() == 24);
    assert("routed_scaling_denominator"@.len() == 26);
    assert("per_expert_batches"@.len() == 18);
    let fields = launch_fields(config, num_tokens, rows, backend);
    let terms = config.description();
    assert(carries(fields, terms[2]));
    assert(carries(fields, terms[3]));
    assert(carries(fields, terms[4]));
    assert(carries(fields, terms[5]));
    assert(carries(fields, terms[6]));
    assert(carries(fields, terms[7]));
    assert(carries(fields, terms[8]));
    assert(carries(fields, terms[9]));
    assert(carries(fields, terms[10]));
    assert(carries(fields, terms[11]));
    assert(carries(fields, terms[12]));
}

/// Kernels that are described alike are launched alike.
pub proof fn described_alike_is_launched_alike(
    a: Bf16FusedMoeKernelConfig,
    b: Bf16FusedMoeKernelConfig,
    num_tokens: u32,
    rows: Seq<u32>,
    backend: Seq<char>,
)
    requires
        a.description() == b.description(),
    ensures
        launch_fields(a, num_tokens, rows, backend) == launch_fields(b, num_tokens, rows, backend),
{
    let (x, y) = (a.description(), b.description());
    assert(x[0] == y[0]);
    assert(x[1] == y[1]);
    assert(x[2] == y[2]);
    assert(x[3] == y[3]);
    assert(x[4] == y[4]);
    assert(x[5] == y[5]);
    assert(x[6] == y[6]);
    assert(x[7] == y[7]);
    assert(x[8] == y[8]);
    assert(x[9] == y[9]);
    assert(x[10] == y[10]);
    assert(x[11] == y[11]);
    assert(x[12] == y[12]);
    assert(x[13] == y[13]);
    assert(x[14] == y[14]);
}

/// The kernel computes in the precision that is described as `dtype` and names no precision
/// that it keeps its cache in.
pub proof fn precisions_are_described(config: Bf16FusedMoeKernelConfig)
    ensures
        config.compute() matches Some(precision) && config.description()[7] == (
            "dtype"@,
            ConfigTerm::Precision(precision),
        ),
        config.kv() is None,
{
}

} // verus!
