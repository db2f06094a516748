//! Prefill attention over one complete batch of requests, launched in groups of four.
//!
//! The table is built over the total of query rows, the mean context and the number of
//! launches.

use crate::bridge::payload::{
    dtype_text, number_value, text_value, ArgsPayload, DType, KernelKind, PayloadValue, Real,
    WireValue,
};
use crate::cache::CacheKind;
use crate::dims::Dim;
use crate::kernels::compact_counts::min_int;
use crate::kernels::config::{
    dimension_of, field, fields_view, names_of, number_of, precision_of, text_of, ConfigField,
    ConfigTerm, KernelConfig,
};
use crate::kernels::engine::{
    carries, pairs_at, standing_is_value, stands_at, stands_on_whole_units, whole_units,
    CellPayloads, KernelSpec, SweepCoords,
};
use crate::kernels::request_split::{
    batch_ok, batch_totals, can_launch, even_batch_totals, even_share, even_share_fits,
    feasible_even_batch, requests_rows_and_context_ascend, spread_evenly, total_context,
    total_queries, totals_of_joined, BatchTotals,
};
use crate::sweep::{at_most, cell_at, cell_on_axes, whole, Axis, Ratio, SweepGrid};
use vstd::prelude::*;

verus! {

#[derive(Clone, Debug, PartialEq, Eq, Hash)]
pub struct DeepseekV4SparseMlaPrefillKernelConfig {
    pub backends: Vec<&'static str>,
    pub gpu_name: String,
    pub max_model_len: u32,
    pub max_num_batched_tokens: u32,
    pub prefill_chunk_size: u32,
    pub compress_ratio: u32,
    pub window_size: u32,
    pub selected_k: u32,
    pub selected_index_pattern: String,
    pub num_heads: Dim,
    pub num_kv_heads: Dim,
    pub head_dim: Dim,
    pub value_dim: Dim,
    pub q_dtype: DType,
    pub cache_dtype: DType,
    pub index_dtype: String,
    pub output_dtype: DType,
    pub cache_layout: String,
}

impl KernelConfig for DeepseekV4SparseMlaPrefillKernelConfig {
    const BACKENDS_FIELD: &'static str = "DeepseekV4SparseMlaPrefillKernelConfig.backends";

    open spec fn candidates(&self) -> Seq<&'static str> {
        self.backends@
    }

    open spec fn gpu(&self) -> Seq<char> {
        self.gpu_name@
    }

    open spec fn compute(&self) -> Option<DType> {
        Some(self.q_dtype)
    }

    open spec fn kv(&self) -> Option<DType> {
        Some(self.cache_dtype)
    }

    open spec fn description(&self) -> Seq<(Seq<char>, ConfigTerm)> {
        seq![
            ("backends"@, ConfigTerm::Names(self.backends@)),
            ("gpu_name"@, ConfigTerm::Text(self.gpu_name@)),
            ("max_model_len"@, ConfigTerm::Number(self.max_model_len as nat)),
            ("max_num_batched_tokens"@, ConfigTerm::Number(self.max_num_batched_tokens as nat)),
            ("prefill_chunk_size"@, ConfigTerm::Number(self.prefill_chunk_size as nat)),
            ("compress_ratio"@, ConfigTerm::Number(self.compress_ratio as nat)),
            ("window_size"@, ConfigTerm::Number(self.window_size as nat)),
            ("selected_k"@, ConfigTerm::Number(self.selected_k as nat)),
            ("selected_index_pattern"@, ConfigTerm::Text(self.selected_index_pattern@)),
            ("num_heads"@, ConfigTerm::Dimension(self.num_heads@)),
            ("num_kv_heads"@, ConfigTerm::Dimension(self.num_kv_heads@)),
            ("head_dim"@, ConfigTerm::Dimension(self.head_dim@)),
            ("value_dim"@, ConfigTerm::Dimension(self.value_dim@)),
            ("q_dtype"@, ConfigTerm::Precision(self.q_dtype)),
            ("cache_dtype"@, ConfigTerm::Precision(self.cache_dtype)),
            ("index_dtype"@, ConfigTerm::Text(self.index_dtype@)),
            ("output_dtype"@, ConfigTerm::Precision(self.output_dtype)),
            ("cache_layout"@, ConfigTerm::Text(self.cache_layout@)),
        ]
    }

    fn backends(&self) -> (r: &Vec<&'static str>) {
        &self.backends
    }

    fn gpu_name(&self) -> (r: &str) {
        self.gpu_name.as_str()
    }

    fn compute_dtype(&self) -> (r: Option<DType>) {
        Some(self.q_dtype)
    }

    fn kv_dtype(&self) -> (r: Option<DType>) {
        Some(self.cache_dtype)
    }

    fn describe_config(&self) -> (r: Vec<ConfigField>) {
        let r: Vec<ConfigField> = vec![
            field("backends", names_of(&self.backends)),
            field("gpu_name", text_of(self.gpu_name.as_str())),
            field("max_model_len", number_of(self.max_model_len)),
            field("max_num_batched_tokens", number_of(self.max_num_batched_tokens)),
            field("prefill_chunk_size", number_of(self.prefill_chunk_size)),
            field("compress_ratio", number_of(self.compress_ratio)),
            field("window_size", number_of(self.window_size)),
            field("selected_k", number_of(self.selected_k)),
            field("selected_index_pattern", text_of(self.selected_index_pattern.as_str())),
            field("num_heads", dimension_of(&self.num_heads)),
            field("num_kv_heads", dimension_of(&self.num_kv_heads)),
            field("head_dim", dimension_of(&self.head_dim)),
            field("value_dim", dimension_of(&self.value_dim)),
            field("q_dtype", precision_of(self.q_dtype)),
            field("cache_dtype", precision_of(self.cache_dtype)),
            field("index_dtype", text_of(self.index_dtype.as_str())),
            field("output_dtype", precision_of(self.output_dtype)),
            field("cache_layout", text_of(self.cache_layout.as_str())),
        ];
        assert(fields_view(r@) =~= self.description());
        r
    }
}

/// One complete batch: the query rows and the context of every request.
#[derive(Clone, Debug, PartialEq, Eq, Hash)]
pub struct DeepseekV4SparseMlaPrefillKernelInput {
    pub query_context_pairs: Vec<(u32, u32)>,
}

/// The launches of a batch: four requests each.
pub open spec fn launches(requests: int) -> int {
    (requests + 3) / 4
}

impl SweepCoords for DeepseekV4SparseMlaPrefillKernelInput {
    open spec fn well_shaped(&self) -> bool {
        batch_ok(self.query_context_pairs@, 64, 8192)
    }

    open spec fn position(&self) -> Seq<Ratio> {
        seq![
            whole(total_queries(self.query_context_pairs@)),
            (Ratio {
                numerator: total_context(self.query_context_pairs@) as u64,
                denominator: self.query_context_pairs@.len() as u64,
            }),
            whole(launches(self.query_context_pairs@.len() as int)),
        ]
    }

    open spec fn axis_names() -> Seq<Seq<char>> {
        seq!["num_queries"@, "mean_context"@, "physical_launches"@]
    }

    fn is_well_shaped(&self) -> (r: bool) {
        can_launch(&self.query_context_pairs)
    }

    fn coords(&self) -> (r: Vec<Ratio>) {
        let totals: BatchTotals = batch_totals(&self.query_context_pairs);
        let requests: u64 = self.query_context_pairs.len() as u64;
        let r: Vec<Ratio> = vec![
            Ratio::from_whole(totals.queries),
            Ratio { numerator: totals.context, denominator: requests },
            Ratio::from_whole(((requests + 3) / 4) as u32),
        ];
        assert(r@ =~= self.position());
        r
    }

    fn coord_field_names() -> (r: Vec<&'static str>) {
        let r: Vec<&'static str> = vec!["num_queries", "mean_context", "physical_launches"];
        assert(r@.map_values(|name: &'static str| name@) =~= Self::axis_names());
        r
    }
}

/// The requests of a batch of `queries` rows in `launches` launches: as many as fit,
/// if there are rows enough to need that many launches.
pub open spec fn launched_requests(queries: int, launches: int) -> Option<int> {
    if queries >= 4 * (launches - 1) + 1 {
        Some(min_int(queries, 4 * launches))
    } else {
        None
    }
}

/// Whether a number of launches can be turned into a number of requests.
pub open spec fn launches_ok(launches: int) -> bool {
    1 <= launches && 4 * launches <= u32::MAX
}

/// The requests of a batch of `num_queries` rows in `physical_launches` launches.
pub fn request_count(num_queries: u32, physical_launches: u32) -> (r: Option<u32>)
    requires
        launches_ok(physical_launches as int),
    ensures
        match r {
            Some(count) => launched_requests(num_queries as int, physical_launches as int) == Some(
                count as int,
            ),
            None => launched_requests(num_queries as int, physical_launches as int) is None,
        },
{
    let minimum: u32 = 4 * (physical_launches - 1) + 1;
    if num_queries < minimum {
        return None;
    }
    let most: u32 = 4 * physical_launches;
    Some(
        if num_queries <= most {
            num_queries
        } else {
            most
        },
    )
}

/// The even batch of a cell, if there is one.
pub open spec fn canonical_batch(queries: int, context: int, launches: int) -> Option<
    Seq<(u32, u32)>,
> {
    match launched_requests(queries, launches) {
        Some(requests) => feasible_even_batch(queries, requests, context),
        None => None,
    }
}

/// The even batch of a cell, if there is one.
pub fn canonical_pairs(num_queries: u32, context: u32, physical_launches: u32) -> (r: Option<
    Vec<(u32, u32)>,
>)
    requires
        launches_ok(physical_launches as int),
    ensures
        match r {
            Some(pairs) => canonical_batch(
                num_queries as int,
                context as int,
                physical_launches as int,
            ) == Some(pairs@),
            None => canonical_batch(
                num_queries as int,
                context as int,
                physical_launches as int,
            ) is None,
        },
{
    match request_count(num_queries, physical_launches) {
        Some(requests) => spread_evenly(num_queries, requests, context),
        None => None,
    }
}

/// The batch of a cell needs exactly the cell's number of launches and holds exactly
/// its rows.
pub proof fn canonical_batch_projects_back(queries: int, context: int, count: int)
    requires
        1 <= queries <= u32::MAX,
        0 <= context <= u32::MAX,
        launches_ok(count),
        canonical_batch(queries, context, count) is Some,
    ensures
        total_queries(canonical_batch(queries, context, count)->0) == queries,
        launches(canonical_batch(queries, context, count)->0.len() as int) == count,
        forall|i: int|
            0 <= i < canonical_batch(queries, context, count)->0.len() ==> (
            #[trigger] canonical_batch(queries, context, count)->0[i]).1 == context,
{
    let requests = launched_requests(queries, count)->0;
    crate::kernels::request_split::even_batch_totals(queries, requests, context);
}

/// A cell that is left out is the place of no launch: whatever batch has a cell's rows,
/// mean context and launches, the cell has an even batch too.
pub proof fn every_launch_has_its_cell(cell: Seq<u32>, input: DeepseekV4SparseMlaPrefillKernelInput)
    requires
        cell.len() == 3,
        input.well_shaped(),
        stands_at(input.position(), cell, seq![1, 1, 1]),
    ensures
        canonical_batch(cell[0] as int, cell[1] as int, cell[2] as int) is Some,
{
    let pairs = input.query_context_pairs@;
    requests_rows_and_context_ascend(pairs);
    assert(pairs.len() * u32::MAX <= u64::MAX);
    let at = input.position();
    standing_is_value(at, cell, seq![1, 1, 1], 0);
    standing_is_value(at, cell, seq![1, 1, 1], 1);
    standing_is_value(at, cell, seq![1, 1, 1], 2);
    let queries = total_queries(pairs);
    let requests = pairs.len() as int;
    let context = cell[1] as int;
    let spread = launched_requests(queries, cell[2] as int)->0;
    let length = at[1].denominator as int;
    assert(length == requests && queries <= context * length);
    assert(queries <= spread * context) by (nonlinear_arith)
        requires
            queries <= context * length,
            length <= spread,
            0 <= context,
    ;
    even_share_fits(queries, spread, context);
}

pub struct DeepseekV4SparseMlaPrefillSpec;

impl KernelSpec for DeepseekV4SparseMlaPrefillSpec {
    type Config = DeepseekV4SparseMlaPrefillKernelConfig;

    type Input = DeepseekV4SparseMlaPrefillKernelInput;

    const KIND: KernelKind = "deepseek_v4_sparse_mla_prefill";

    open spec fn admits(config: DeepseekV4SparseMlaPrefillKernelConfig) -> bool {
        config.prefill_chunk_size == 4 && config.max_num_batched_tokens == 8192
            && config.selected_k == (if config.compress_ratio == 1 {
            0int
        } else {
            512
        })
    }

    open spec fn axes(
        config: DeepseekV4SparseMlaPrefillKernelConfig,
        tokens: Seq<u32>,
    ) -> Seq<Seq<u32>> {
        seq![
            seq![1u32, 4, 16, 64, 128, 256, 512, 1024, 2048, 4096, 8192],
            at_most(
                seq![1u32, 32, 128, 512, 2048, 8192, 32768, 65536, 262144, 1048576],
                config.max_model_len as int,
            ),
            seq![1u32, 2, 4, 8, 16],
        ]
    }

    open spec fn units(axes: Seq<Seq<u32>>) -> Seq<u32> {
        whole_units(axes)
    }

    open spec fn table(backend: Seq<char>) -> CacheKind {
        CacheKind::Cache3DLinear
    }

    open spec fn masks() -> bool {
        true
    }

    open spec fn judges(config: DeepseekV4SparseMlaPrefillKernelConfig, cell: Seq<u32>) -> bool {
        cell.len() == 3 && launches_ok(cell[2] as int)
    }

    open spec fn infeasible(
        config: DeepseekV4SparseMlaPrefillKernelConfig,
        cell: Seq<u32>,
    ) -> bool {
        canonical_batch(cell[0] as int, cell[1] as int, cell[2] as int) is None
    }

    open spec fn table_position(
        config: DeepseekV4SparseMlaPrefillKernelConfig,
        input: DeepseekV4SparseMlaPrefillKernelInput,
    ) -> Seq<Ratio> {
        input.position()
    }

    open spec fn answers(
        config: DeepseekV4SparseMlaPrefillKernelConfig,
        input: DeepseekV4SparseMlaPrefillKernelInput,
    ) -> bool {
        input.well_shaped()
    }

    fn profile_kind() -> (r: KernelKind) {
        Self::KIND
    }

    fn can_sweep(config: &DeepseekV4SparseMlaPrefillKernelConfig) -> (r: bool) {
        config.prefill_chunk_size == 4 && config.max_num_batched_tokens == 8192 && config.selected_k
            == if config.compress_ratio == 1 {
            0
        } else {
            512
        }
    }

    fn sweep_grid(
        config: &DeepseekV4SparseMlaPrefillKernelConfig,
        tokens: &Vec<u32>,
    ) -> (r: SweepGrid) {
        let contexts: Vec<u32> = vec![1, 32, 128, 512, 2048, 8192, 32768, 65536, 262144, 1048576];
        assert(contexts@ =~= seq![1u32, 32, 128, 512, 2048, 8192, 32768, 65536, 262144, 1048576]);
        let a0: Vec<u32> = Axis::values(vec![1, 4, 16, 64, 128, 256, 512, 1024, 2048, 4096, 8192]);
        let a1: Vec<u32> = Axis::up_to(&contexts, config.max_model_len);
        let a2: Vec<u32> = Axis::values(vec![1, 2, 4, 8, 16]);
        let r = SweepGrid::new(vec![a0, a1, a2]);
        proof {
            assert(r.points() =~= Self::axes(*config, tokens@));
            assert(r.scale() =~= whole_units(r.points()));
        }
        r
    }

    fn cache_kind(backend: &str) -> (r: CacheKind) {
        CacheKind::Cache3DLinear
    }

    fn has_mask() -> (r: bool) {
        true
    }

    fn is_infeasible(
        config: &DeepseekV4SparseMlaPrefillKernelConfig,
        cell: &Vec<u32>,
    ) -> (r: bool) {
        canonical_pairs(cell[0], cell[1], cell[2]).is_none()
    }

    fn can_answer(
        config: &DeepseekV4SparseMlaPrefillKernelConfig,
        input: &DeepseekV4SparseMlaPrefillKernelInput,
    ) -> (r: bool) {
        input.is_well_shaped()
    }

    fn cache_coords(
        config: &DeepseekV4SparseMlaPrefillKernelConfig,
        input: &DeepseekV4SparseMlaPrefillKernelInput,
    ) -> (r: Vec<Ratio>) {
        input.coords()
    }

    proof fn sweep_fits_table(
        config: DeepseekV4SparseMlaPrefillKernelConfig,
        tokens: Seq<u32>,
        backend: Seq<char>,
    ) {
    }

    proof fn sweep_is_judged(
        config: DeepseekV4SparseMlaPrefillKernelConfig,
        tokens: Seq<u32>,
        index: nat,
    ) {
        cell_on_axes(Self::axes(config, tokens), index);
    }

    proof fn queries_fit_table(
        config: DeepseekV4SparseMlaPrefillKernelConfig,
        input: DeepseekV4SparseMlaPrefillKernelInput,
        backend: Seq<char>,
    ) {
    }
}

impl CellPayloads for DeepseekV4SparseMlaPrefillSpec {
    open spec fn covers(config: DeepseekV4SparseMlaPrefillKernelConfig, cell: Seq<u32>) -> bool {
        cell.len() == 3 && launches_ok(cell[2] as int)
    }

    open spec fn enumerates(config: DeepseekV4SparseMlaPrefillKernelConfig) -> bool {
        true
    }

    open spec fn fields(
        config: DeepseekV4SparseMlaPrefillKernelConfig,
        cell: Seq<u32>,
        backend: Seq<char>,
    ) -> Map<Seq<char>, WireValue> {
        let pairs = match canonical_batch(cell[0] as int, cell[1] as int, cell[2] as int) {
            Some(pairs) => pairs,
            None => seq![(1u32, 1u32)],
        };
        Map::<Seq<char>, WireValue>::empty()
            .insert("query_context_pairs"@, WireValue::Pairs(pairs))
            .insert("max_model_len"@, WireValue::Number(config.max_model_len as nat))
            .insert(
                "max_num_batched_tokens"@,
                WireValue::Number(config.max_num_batched_tokens as nat),
            )
            .insert("prefill_chunk_size"@, WireValue::Number(config.prefill_chunk_size as nat))
            .insert("compress_ratio"@, WireValue::Number(config.compress_ratio as nat))
            .insert("window_size"@, WireValue::Number(config.window_size as nat))
            .insert("selected_k"@, WireValue::Number(config.selected_k as nat))
            .insert("selected_index_pattern"@, WireValue::Text(config.selected_index_pattern@))
            .insert("num_heads"@, WireValue::Number(config.num_heads@.fold() as nat))
            .insert("num_kv_heads"@, WireValue::Number(config.num_kv_heads@.fold() as nat))
            .insert("head_dim"@, WireValue::Number(config.head_dim@.fold() as nat))
            .insert("value_dim"@, WireValue::Number(config.value_dim@.fold() as nat))
            .insert(
                "softmax_scale"@,
                WireValue::Real(Real::ReciprocalRoot(config.head_dim@.fold() as u32)),
            )
            .insert("q_dtype"@, WireValue::Text(dtype_text(config.q_dtype)))
            .insert("cache_dtype"@, WireValue::Text(dtype_text(config.cache_dtype)))
            .insert("index_dtype"@, WireValue::Text(config.index_dtype@))
            .insert("output_dtype"@, WireValue::Text(dtype_text(config.output_dtype)))
            .insert("cache_layout"@, WireValue::Text(config.cache_layout@))
            .insert("backend"@, WireValue::Text(backend))
    }

    fn can_enumerate(config: &DeepseekV4SparseMlaPrefillKernelConfig) -> (r: bool) {
        true
    }

    fn cell_payload(
        config: &DeepseekV4SparseMlaPrefillKernelConfig,
        cell: &Vec<u32>,
        backend: &str,
    ) -> (r: ArgsPayload) {
        let pairs: Vec<(u32, u32)> = match canonical_pairs(cell[0], cell[1], cell[2]) {
            Some(pairs) => pairs,
            None => {
                let one: Vec<(u32, u32)> = vec![(1, 1)];
                assert(one@ =~= seq![(1u32, 1u32)]);
                one
            },
        };
        ArgsPayload::new()
            .with("query_context_pairs", PayloadValue::Pairs(pairs))
            .with("max_model_len", number_value(config.max_model_len))
            .with("max_num_batched_tokens", number_value(config.max_num_batched_tokens))
            .with("prefill_chunk_size", number_value(config.prefill_chunk_size))
            .with("compress_ratio", number_value(config.compress_ratio))
            .with("window_size", number_value(config.window_size))
            .with("selected_k", number_value(config.selected_k))
            .with("selected_index_pattern", text_value(config.selected_index_pattern.as_str()))
            .with("num_heads", number_value(config.num_heads.get()))
            .with("num_kv_heads", number_value(config.num_kv_heads.get()))
            .with("head_dim", number_value(config.head_dim.get()))
            .with("value_dim", number_value(config.value_dim.get()))
            .with("softmax_scale", PayloadValue::Real(Real::ReciprocalRoot(config.head_dim.get())))
            .with("q_dtype", text_value(config.q_dtype.as_str()))
            .with("cache_dtype", text_value(config.cache_dtype.as_str()))
            .with("index_dtype", text_value(config.index_dtype.as_str()))
            .with("output_dtype", text_value(config.output_dtype.as_str()))
            .with("cache_layout", text_value(config.cache_layout.as_str()))
            .with("backend", text_value(backend))
    }

    proof fn sweep_is_covered(
        config: DeepseekV4SparseMlaPrefillKernelConfig,
        tokens: Seq<u32>,
        index: nat,
    ) {
        cell_on_axes(Self::axes(config, tokens), index);
    }

    proof fn fields_name_backend(
        config: DeepseekV4SparseMlaPrefillKernelConfig,
        cell: Seq<u32>,
        backend: Seq<char>,
    ) {
    }

    open spec fn describes(
        config: DeepseekV4SparseMlaPrefillKernelConfig,
        fields: Map<Seq<char>, WireValue>,
        input: DeepseekV4SparseMlaPrefillKernelInput,
    ) -> bool {
        pairs_at(fields, "query_context_pairs"@) == input.query_context_pairs@
    }

    open spec fn occurs(config: DeepseekV4SparseMlaPrefillKernelConfig, cell: Seq<u32>) -> bool {
        true
    }

    open spec fn kept_back() -> Set<Seq<char>> {
        set!["backends"@, "gpu_name"@]
    }

    proof fn payload_stands_at_its_cell(
        config: DeepseekV4SparseMlaPrefillKernelConfig,
        tokens: Seq<u32>,
        index: nat,
        backend: Seq<char>,
        input: DeepseekV4SparseMlaPrefillKernelInput,
    ) {
        cell_on_axes(Self::axes(config, tokens), index);
        reveal_strlit("query_context_pairs");
        reveal_strlit("max_model_len");
        reveal_strlit("max_num_batched_tokens");
        reveal_strlit("prefill_chunk_size");
        reveal_strlit("compress_ratio");
        reveal_strlit("window_size");
        reveal_strlit("selected_k");
        reveal_strlit("selected_index_pattern");
        reveal_strlit("num_heads");
        reveal_strlit("num_kv_heads");
        reveal_strlit("head_dim");
        reveal_strlit("value_dim");
        reveal_strlit("softmax_scale");
        reveal_strlit("q_dtype");
        reveal_strlit("cache_dtype");
        reveal_strlit("index_dtype");
        reveal_strlit("output_dtype");
        reveal_strlit("cache_layout");
        reveal_strlit("backend");
        assert("query_context_pairs"@.len() == 19);
        assert("max_model_len"@.len() == 13);
        assert("max_num_batched_tokens"@.len() == 22);
        assert("prefill_chunk_size"@.len() == 18);
        assert("compress_ratio"@.len() == 14);
        assert("window_size"@.len() == 11);
        assert("selected_k"@.len() == 10);
        assert("selected_index_pattern"@.len() == 22);
        assert("num_heads"@.len() == 9);
        assert("num_kv_heads"@.len() == 12);
        assert("head_dim"@.len() == 8);
        assert("value_dim"@.len() == 9);
        assert("softmax_scale"@.len() == 13);
        assert("q_dtype"@.len() == 7);
        assert("cache_dtype"@.len() == 11);
        assert("index_dtype"@.len() == 11);
        assert("output_dtype"@.len() == 12);
        assert("cache_layout"@.len() == 12);
        assert("backend"@.len() == 7);
        let cell = cell_at(Self::axes(config, tokens), index);
        let queries = cell[0] as int;
        let context = cell[1] as int;
        let count = cell[2] as int;
        assert(Self::axes(config, tokens)[0].contains(cell[0]));
        assert(Self::axes(config, tokens)[2].contains(cell[2]));
        assert(1 <= queries <= 8192 && 1 <= count <= 16);
        let requests = launched_requests(queries, count)->0;
        even_batch_totals(queries, requests, context);
        let pairs = input.query_context_pairs@;
        assert forall|i: int| 0 <= i < pairs.len() implies 0 < #[trigger] pairs[i].0
            <= pairs[i].1 by {
            assert(even_share(queries, requests, i) <= even_share(queries, requests, 0));
            assert(queries / requests >= 1) by (nonlinear_arith)
                requires
                    1 <= requests <= queries,
            ;
        }
        assert(requests * context == context * requests && 0 <= context * requests <= u64::MAX)
            by (nonlinear_arith)
            requires
                0 <= context <= u32::MAX,
                1 <= requests <= 64,
        ;
        let at = Self::table_position(config, input);
        assert(at[0] == whole(cell[0] as int));
        assert(at[1].numerator == cell[1] * at[1].denominator);
        assert(at[2] == whole(cell[2] as int));
        stands_on_whole_units(at, cell, Self::units(Self::axes(config, tokens)));
    }

    proof fn payload_carries_config(
        config: DeepseekV4SparseMlaPrefillKernelConfig,
        cell: Seq<u32>,
        backend: Seq<char>,
        i: int,
    ) {
        reveal_strlit("max_model_len");
        reveal_strlit("max_num_batched_tokens");
        reveal_strlit("prefill_chunk_size");
        reveal_strlit("compress_ratio");
        reveal_strlit("window_size");
        reveal_strlit("selected_k");
        reveal_strlit("selected_index_pattern");
        reveal_strlit("num_heads");
        reveal_strlit("num_kv_heads");
        reveal_strlit("head_dim");
        reveal_strlit("value_dim");
        reveal_strlit("softmax_scale");
        reveal_strlit("q_dtype");
        reveal_strlit("cache_dtype");
        reveal_strlit("index_dtype");
        reveal_strlit("output_dtype");
        reveal_strlit("cache_layout");
        reveal_strlit("backend");
        assert("max_model_len"@.len() == 13 && "max_model_len"@[0] == 'm');
        assert("max_num_batched_tokens"@.len() == 22 && "max_num_batched_tokens"@[0] == 'm');
        assert("prefill_chunk_size"@.len() == 18);
        assert("compress_ratio"@.len() == 14);
        assert("window_size"@.len() == 11 && "window_size"@[0] == 'w');
        assert("selected_k"@.len() == 10);
        assert("selected_index_pattern"@.len() == 22 && "selected_index_pattern"@[0] == 's');
        assert("num_heads"@.len() == 9 && "num_heads"@[0] == 'n');
        assert("num_kv_heads"@.len() == 12 && "num_kv_heads"@[0] == 'n');
        assert("head_dim"@.len() == 8);
        assert("value_dim"@.len() == 9 && "value_dim"@[0] == 'v');
        assert("softmax_scale"@.len() == 13 && "softmax_scale"@[0] == 's');
        assert("q_dtype"@.len() == 7 && "q_dtype"@[0] == 'q');
        assert("cache_dtype"@.len() == 11 && "cache_dtype"@[0] == 'c');
        assert("index_dtype"@.len() == 11 && "index_dtype"@[0] == 'i');
        assert("output_dtype"@.len() == 12 && "output_dtype"@[0] == 'o');
        assert("cache_layout"@.len() == 12 && "cache_layout"@[0] == 'c');
        assert("backend"@.len() == 7 && "backend"@[0] == 'b');
        let fields = Self::fields(config, cell, backend);
        let terms = config.description();
        assert(carries(fields, terms[2]));
        assert(carries(fields, terms[3]));
        assert(carries(fields, terms[4]));
        assert(carries(fields, terms[5]));
        assert(carries(fields, terms[6]));
        assert(carries(fields, terms[7]));
        assert(carries(fields, terms[8]));
        assert(carries(fields, terms[9]));
        assert(carries(fields, terms[10]));
        assert(carries(fields, terms[11]));
        assert(carries(fields, terms[12]));
        assert(carries(fields, terms[13]));
        assert(carries(fields, terms[14]));
        assert(carries(fields, terms[15]));
        assert(carries(fields, terms[16]));
        assert(carries(fields, terms[17]));
    }

    proof fn described_alike_is_profiled_alike(
        a: DeepseekV4SparseMlaPrefillKernelConfig,
        b: DeepseekV4SparseMlaPrefillKernelConfig,
        tokens: Seq<u32>,
        cell: Seq<u32>,
        backend: Seq<char>,
    ) {
        let (x, y) = (a.description(), b.description());
        assert(x[0] == y[0]);
        assert(x[1] == y[1]);
        assert(x[2] == y[2]);
        assert(x[3] == y[3]);
        assert(x[4] == y[4]);
        assert(x[5] == y[5]);
        assert(x[6] == y[6]);
        assert(x[7] == y[7]);
        assert(x[8] == y[8]);
        assert(x[9] == y[9]);
        assert(x[10] == y[10]);
        assert(x[11] == y[11]);
        assert(x[12] == y[12]);
        assert(x[13] == y[13]);
        assert(x[14] == y[14]);
        assert(x[15] == y[15]);
        assert(x[16] == y[16]);
        assert(x[17] == y[17]);
    }
}

/// The softmax scale is one over the root of the head dimension.
pub proof fn softmax_scales_by_head(
    config: DeepseekV4SparseMlaPrefillKernelConfig,
    cell: Seq<u32>,
    backend: Seq<char>,
)
    ensures
        ({
            let fields = DeepseekV4SparseMlaPrefillSpec::fields(config, cell, backend);
            0 <= config.head_dim@.fold() <= u32::MAX ==> (
            fields["softmax_scale"@] matches WireValue::Real(Real::ReciprocalRoot(of)) && of
                == config.head_dim@.fold())
        }),
{
    reveal_strlit("softmax_scale");
    reveal_strlit("q_dtype");
    reveal_strlit("cache_dtype");
    reveal_strlit("index_dtype");
    reveal_strlit("output_dtype");
    reveal_strlit("cache_layout");
    reveal_strlit("backend");
    assert("softmax_scale"@.len() == 13);
    assert("q_dtype"@.len() == 7);
    assert("cache_dtype"@.len() == 11);
    assert("index_dtype"@.len() == 11);
    assert("output_dtype"@.len() == 12);
    assert("cache_layout"@.len() == 12);
    assert("backend"@.len() == 7);
}

/// Two batches taken together have the rows of both, and a mean context that weighs each
/// by its requests.
pub proof fn joined_batches_add_up(
    a: DeepseekV4SparseMlaPrefillKernelInput,
    b: DeepseekV4SparseMlaPrefillKernelInput,
    both: DeepseekV4SparseMlaPrefillKernelInput,
)
    requires
        a.well_shaped(),
        b.well_shaped(),
        both.well_shaped(),
        both.query_context_pairs@ == a.query_context_pairs@ + b.query_context_pairs@,
    ensures
        both.position()[0].numerator == a.position()[0].numerator + b.position()[0].numerator,
        both.position()[1].numerator == a.position()[1].numerator + b.position()[1].numerator,
        both.position()[1].denominator == a.position()[1].denominator
            + b.position()[1].denominator,
{
    totals_of_joined(a.query_context_pairs@, b.query_context_pairs@);
    requests_rows_and_context_ascend(a.query_context_pairs@);
    requests_rows_and_context_ascend(b.query_context_pairs@);
    requests_rows_and_context_ascend(both.query_context_pairs@);
}

/// The kernel computes in the precision that is described as `q_dtype` and keeps its cache
/// in the precision that is described as `cache_dtype`.
pub proof fn precisions_are_described(config: DeepseekV4SparseMlaPrefillKernelConfig)
    ensures
        config.compute() matches Some(precision) && config.description()[13] == (
            "q_dtype"@,
            ConfigTerm::Precision(precision),
        ),
        config.kv() matches Some(precision) && config.description()[14] == (
            "cache_dtype"@,
            ConfigTerm::Precision(precision),
        ),
{
}

} // verus!
