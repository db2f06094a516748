//! Grouped matrix product with block-scaled weights, one group per local expert.
//!
//! The routed capacity follows from the global number of input tokens and the experts per
//! token; the rank's own share of that demand is resolved into rows per group. The token
//! count is therefore the one axis of the table.

use crate::bridge::payload::{
    dtype_text, number_value, text_value, ArgsPayload, DType, KernelKind, PayloadValue, WireValue,
};
use crate::cache::CacheKind;
use crate::dims::Dim;
use crate::kernels::config::{
    copy_numbers, dimension_of, field, fields_view, names_of, number_of, numbers_of, precision_of,
    text_of, ConfigField, ConfigTerm, KernelConfig,
};
use crate::kernels::engine::{
    carries, number_at, numbers_at, text_at, whole_units, KernelSpec, SweepCoords,
};
use crate::sweep::{cell_at, cell_count, chained, whole, Axis, Ratio, SweepGrid};
use vstd::prelude::*;

verus! {

#[derive(Clone, Debug, PartialEq, Eq, Hash)]
pub struct Fp8BlockscaleGroupedGemmKernelConfig {
    pub backends: Vec<&'static str>,
    pub gpu_name: String,
    pub n: Dim,
    pub k: Dim,
    pub dtype: DType,
    pub experts_per_token: u32,
    /// The share of every expert of this rank, in parts per million of all selections.
    pub local_ppm: Vec<u32>,
}

impl KernelConfig for Fp8BlockscaleGroupedGemmKernelConfig {
    const BACKENDS_FIELD: &'static str = "Fp8BlockscaleGroupedGemmKernelConfig.backends";

    open spec fn candidates(&self) -> Seq<&'static str> {
        self.backends@
    }

    open spec fn gpu(&self) -> Seq<char> {
        self.gpu_name@
    }

    open spec fn compute(&self) -> Option<DType> {
        Some(self.dtype)
    }

    open spec fn kv(&self) -> Option<DType> {
        None
    }

    open spec fn description(&self) -> Seq<(Seq<char>, ConfigTerm)> {
        seq![
            ("backends"@, ConfigTerm::Names(self.backends@)),
            ("gpu_name"@, ConfigTerm::Text(self.gpu_name@)),
            ("n"@, ConfigTerm::Dimension(self.n@)),
            ("k"@, ConfigTerm::Dimension(self.k@)),
            ("dtype"@, ConfigTerm::Precision(self.dtype)),
            ("experts_per_token"@, ConfigTerm::Number(self.experts_per_token as nat)),
            ("local_ppm"@, ConfigTerm::Numbers(self.local_ppm@)),
        ]
    }

    fn backends(&self) -> (r: &Vec<&'static str>) {
        &self.backends
    }

    fn gpu_name(&self) -> (r: &str) {
        self.gpu_name.as_str()
    }

    fn compute_dtype(&self) -> (r: Option<DType>) {
        Some(self.dtype)
    }

    fn kv_dtype(&self) -> (r: Option<DType>) {
        None
    }

    fn describe_config(&self) -> (r: Vec<ConfigField>) {
        let r: Vec<ConfigField> = vec![
            field("backends", names_of(&self.backends)),
            field("gpu_name", text_of(self.gpu_name.as_str())),
            field("n", dimension_of(&self.n)),
            field("k", dimension_of(&self.k)),
            field("dtype", precision_of(self.dtype)),
            field("experts_per_token", number_of(self.experts_per_token)),
            field("local_ppm", numbers_of(&self.local_ppm)),
        ];
        assert(fields_view(r@) =~= self.description());
        r
    }
}

#[derive(Clone, Copy, Debug, PartialEq, Eq, Hash)]
pub struct Fp8BlockscaleGroupedGemmKernelInput {
    pub num_input_tokens: u32,
}

impl SweepCoords for Fp8BlockscaleGroupedGemmKernelInput {
    open spec fn well_shaped(&self) -> bool {
        true
    }

    open spec fn position(&self) -> Seq<Ratio> {
        seq![whole(self.num_input_tokens as int)]
    }

    open spec fn axis_names() -> Seq<Seq<char>> {
        seq!["num_input_tokens"@]
    }

    fn is_well_shaped(&self) -> (r: bool) {
        true
    }

    fn coords(&self) -> (r: Vec<Ratio>) {
        let r: Vec<Ratio> = vec![Ratio::from_whole(self.num_input_tokens)];
        assert(r@ =~= self.position());
        r
    }

    fn coord_field_names() -> (r: Vec<&'static str>) {
        let r: Vec<&'static str> = vec!["num_input_tokens"];
        assert(r@.map_values(|name: &'static str| name@) =~= Self::axis_names());
        r
    }
}

pub struct Fp8BlockscaleGroupedGemmSpec;

impl KernelSpec for Fp8BlockscaleGroupedGemmSpec {
    type Config = Fp8BlockscaleGroupedGemmKernelConfig;

    type Input = Fp8BlockscaleGroupedGemmKernelInput;

    const KIND: KernelKind = "fp8_blockscale_grouped_gemm";

    open spec fn admits(config: Fp8BlockscaleGroupedGemmKernelConfig) -> bool {
        true
    }

    open spec fn axes(
        config: Fp8BlockscaleGroupedGemmKernelConfig,
        tokens: Seq<u32>,
    ) -> Seq<Seq<u32>> {
        seq![chained(seq![1u32, 4, 8, 16, 32, 48], tokens)]
    }

    open spec fn units(axes: Seq<Seq<u32>>) -> Seq<u32> {
        whole_units(axes)
    }

    open spec fn table(backend: Seq<char>) -> CacheKind {
        CacheKind::Cache1DLinear
    }

    open spec fn masks() -> bool {
        false
    }

    open spec fn judges(config: Fp8BlockscaleGroupedGemmKernelConfig, cell: Seq<u32>) -> bool {
        true
    }

    open spec fn infeasible(config: Fp8BlockscaleGroupedGemmKernelConfig, cell: Seq<u32>) -> bool {
        false
    }

    open spec fn table_position(
        config: Fp8BlockscaleGroupedGemmKernelConfig,
        input: Fp8BlockscaleGroupedGemmKernelInput,
    ) -> Seq<Ratio> {
        input.position()
    }

    open spec fn answers(
        config: Fp8BlockscaleGroupedGemmKernelConfig,
        input: Fp8BlockscaleGroupedGemmKernelInput,
    ) -> bool {
        input.well_shaped()
    }

    fn profile_kind() -> (r: KernelKind) {
        Self::KIND
    }

    fn can_sweep(config: &Fp8BlockscaleGroupedGemmKernelConfig) -> (r: bool) {
        true
    }

    fn sweep_grid(
        config: &Fp8BlockscaleGroupedGemmKernelConfig,
        tokens: &Vec<u32>,
    ) -> (r: SweepGrid) {
        let small: Vec<u32> = vec![1, 4, 8, 16, 32, 48];
        assert(small@ =~= seq![1u32, 4, 8, 16, 32, 48]);
        let a0: Vec<u32> = Axis::chain(small, tokens);
        let r = SweepGrid::new(vec![a0]);
        proof {
            assert(r.points() =~= Self::axes(*config, tokens@));
            assert(r.scale() =~= whole_units(r.points()));
        }
        r
    }

    fn cache_kind(backend: &str) -> (r: CacheKind) {
        CacheKind::Cache1DLinear
    }

    fn has_mask() -> (r: bool) {
        false
    }

    fn is_infeasible(config: &Fp8BlockscaleGroupedGemmKernelConfig, cell: &Vec<u32>) -> (r: bool) {
        false
    }

    fn can_answer(
        config: &Fp8BlockscaleGroupedGemmKernelConfig,
        input: &Fp8BlockscaleGroupedGemmKernelInput,
    ) -> (r: bool) {
        input.is_well_shaped()
    }

    fn cache_coords(
        config: &Fp8BlockscaleGroupedGemmKernelConfig,
        input: &Fp8BlockscaleGroupedGemmKernelInput,
    ) -> (r: Vec<Ratio>) {
        input.coords()
    }

    proof fn sweep_fits_table(
        config: Fp8BlockscaleGroupedGemmKernelConfig,
        tokens: Seq<u32>,
        backend: Seq<char>,
    ) {
    }

    proof fn sweep_is_judged(
        config: Fp8BlockscaleGroupedGemmKernelConfig,
        tokens: Seq<u32>,
        index: nat,
    ) {
    }

    proof fn queries_fit_table(
        config: Fp8BlockscaleGroupedGemmKernelConfig,
        input: Fp8BlockscaleGroupedGemmKernelInput,
        backend: Seq<char>,
    ) {
    }
}

/// How many expert selections all tokens make together, if that fits.
pub fn global_expert_selections(num_input_tokens: u32, experts_per_token: u32) -> (r: Option<u32>)
    ensures
        match r {
            Some(selections) => selections == num_input_tokens * experts_per_token,
            None => num_input_tokens * experts_per_token > u32::MAX,
        },
{
    num_input_tokens.checked_mul(experts_per_token)
}

/// The wire fields of a token count with the given rows per group.
pub open spec fn launch_fields(
    config: Fp8BlockscaleGroupedGemmKernelConfig,
    num_input_tokens: u32,
    rows: Seq<u32>,
    backend: Seq<char>,
) -> Map<Seq<char>, WireValue> {
    Map::<Seq<char>, WireValue>::empty()
        .insert("backend"@, WireValue::Text(backend))
        .insert("n"@, WireValue::Number(config.n@.fold() as nat))
        .insert("k"@, WireValue::Number(config.k@.fold() as nat))
        .insert("dtype"@, WireValue::Text(dtype_text(config.dtype)))
        .insert("num_local_experts"@, WireValue::Number(config.local_ppm@.len()))
        .insert("num_input_tokens"@, WireValue::Number(num_input_tokens as nat))
        .insert("experts_per_token"@, WireValue::Number(config.experts_per_token as nat))
        .insert("per_group_batches"@, WireValue::Numbers(rows))
}

impl Fp8BlockscaleGroupedGemmSpec {
    /// The wire payload of every cell, in order; `rows` holds the rows per group that
    /// routing resolved for each cell.
    pub fn enumerate(
        config: &Fp8BlockscaleGroupedGemmKernelConfig,
        grid: &SweepGrid,
        backend: &str,
        rows: &Vec<Vec<u32>>,
    ) -> (r: Vec<ArgsPayload>)
        requires
            cell_count(grid.points()) == rows@.len(),
            config.local_ppm@.len() <= u32::MAX,
            forall|i: nat|
                i < cell_count(grid.points()) ==> (#[trigger] cell_at(grid.points(), i)).len() == 1,
        ensures
            r@.len() == cell_count(grid.points()),
            forall|i: int|
                0 <= i < r@.len() ==> (#[trigger] r@[i]).wf() && r@[i]@ == launch_fields(
                    *config,
                    cell_at(grid.points(), i as nat)[0],
                    rows@[i]@,
                    backend@,
                ),
    {
        let mut out: Vec<ArgsPayload> = Vec::new();
        let mut i: usize = 0;
        while i < rows.len()
            invariant
                i <= rows@.len(),
                cell_count(grid.points()) == rows@.len(),
                config.local_ppm@.len() <= u32::MAX,
                out@.len() == i,
                forall|j: nat|
                    j < cell_count(grid.points()) ==> (#[trigger] cell_at(grid.points(), j)).len()
                        == 1,
                forall|j: int|
                    0 <= j < i ==> (#[trigger] out@[j]).wf() && out@[j]@ == launch_fields(
                        *config,
                        cell_at(grid.points(), j as nat)[0],
                        rows@[j]@,
                        backend@,
                    ),
            decreases rows@.len() - i,
        {
            let cell: Vec<u32> = grid.cell(i);
            let payload = ArgsPayload::new()
                .with("backend", text_value(backend))
                .with("n", number_value(config.n.get()))
                .with("k", number_value(config.k.get()))
                .with("dtype", text_value(config.dtype.as_str()))
                .with("num_local_experts", number_value(config.local_ppm.len() as u32))
                .with("num_input_tokens", number_value(cell[0]))
                .with("experts_per_token", number_value(config.experts_per_token))
                .with("per_group_batches", PayloadValue::Numbers(copy_numbers(&rows[i])));
            out.push(payload);
            i += 1;
        }
        out
    }
}

/// The names of the configuration that a launch does not carry as they are.
pub open spec fn kept_back() -> Set<Seq<char>> {
    set!["backends"@, "gpu_name"@, "local_ppm"@]
}

/// A launch is profiled under the configuration that describes the kernel: every field of
/// the description is carried under its own name, but for those kept back. It carries its
/// tokens, its rows and its backend besides.
pub proof fn launch_carries_config(
    config: Fp8BlockscaleGroupedGemmKernelConfig,
    num_input_tokens: u32,
    rows: Seq<u32>,
    backend: Seq<char>,
    i: int,
)
    requires
        0 <= i < config.description().len(),
    ensures
        kept_back().contains(config.description()[i].0) || carries(
            launch_fields(config, num_input_tokens, rows, backend),
            config.description()[i],
        ),
        number_at(launch_fields(config, num_input_tokens, rows, backend), "num_input_tokens"@)
            == num_input_tokens,
        numbers_at(launch_fields(config, num_input_tokens, rows, backend), "per_group_batches"@)
            == rows,
        text_at(launch_fields(config, num_input_tokens, rows, backend), "backend"@) == backend,
        number_at(launch_fields(config, num_input_tokens, rows, backend), "num_local_experts"@)
            == config.local_ppm@.len(),
{
    reveal_strlit("backend");
    reveal_strlit("n");
    reveal_strlit("k");
    reveal_strlit("dtype");
    reveal_strlit("num_local_experts");
    reveal_strlit("num_input_tokens");
    reveal_strlit("experts_per_token");
    reveal_strlit("per_group_batches");
    assert("backend"@.len() == 7);
    assert("n"@.len() == 1 && "n"@[0] == 'n');
    assert("k"@.len() == 1 && "k"@[0] == 'k');
    assert("dtype"@.len() == 5);
    assert("num_local_experts"@.len() == 17 && "num_local_experts"@[0] == 'n');
    assert("num_input_tokens"@.len() == 16);
    assert("experts_per_token"@.len() == 17 && "experts_per_token"@[0] == 'e');
    assert("per_group_batches"@.len() == 17 && "per_group_batches"@[0] == 'p');
    let fields = launch_fields(config, num_input_tokens, rows, backend);
    let terms = config.description();
    assert(carries(fields, terms[2]));
    assert(carries(fields, terms[3]));
    assert(carries(fields, terms[4]));
    assert(carries(fields, terms[5]));
}

/// Kernels that are described alike are launched alike.
pub proof fn described_alike_is_launched_alike(
    a: Fp8BlockscaleGroupedGemmKernelConfig,
    b: Fp8BlockscaleGroupedGemmKernelConfig,
    num_input_tokens: u32,
    rows: Seq<u32>,
    backend: Seq<char>,
)
    requires
        a.description() == b.description(),
    ensures
        launch_fields(a, num_input_tokens, rows, backend) == launch_fields(b, num_input_tokens, rows, backend),
{
    let (x, y) = (a.description(), b.description());
    assert(x[0] == y[0]);
    assert(x[1] == y[1]);
    assert(x[2] == y[2]);
    assert(x[3] == y[3]);
    assert(x[4] == y[4]);
    assert(x[5] == y[5]);
    assert(x[6] == y[6]);
}

/// The kernel computes in the precision that is described as `dtype` and names no precision
/// that it keeps its cache in.
pub proof fn precisions_are_described(config: Fp8BlockscaleGroupedGemmKernelConfig)
    ensures
        config.compute() matches Some(precision) && config.description()[4] == (
            "dtype"@,
            ConfigTerm::Precision(precision),
        ),
        config.kv() is None,
{
}

} // verus!
