//! Sparse latent attention in prefill over one complete batch of requests.
//!
//! The rows of a request span `context - queries + 1` to `context`. A batch is projected
//! to its total of query rows, its number of requests, and the context at which an even
//! batch with the same causal mean would end; for one request that is its own context.

use crate::bridge::payload::{
    dtype_text, number_value, text_value, ArgsPayload, DType, KernelKind, PayloadValue, Real,
    WireValue,
};
use crate::cache::CacheKind;
use crate::dims::Dim;
use crate::kernels::config::{
    dimension_of, field, fields_view, names_of, number_of, precision_of, text_of, ConfigField,
    ConfigTerm, KernelConfig,
};
use crate::kernels::engine::{
    carries, pairs_at, standing_is_value, stands_at, stands_on_whole_units, whole_units,
    CellPayloads, KernelSpec, SweepCoords,
};
use crate::kernels::request_split::{
    batch_ok, batch_totals, can_launch, doubled_causal_context, even_batch, even_batch_totals,
    even_share, even_share_fits, feasible_even_batch, requests_ok, requests_rows_and_context_ascend,
    spread_evenly, total_queries, BatchTotals,
};
use crate::sweep::{at_most, cell_at, cell_on_axes, whole, Axis, Ratio, SweepGrid};
use vstd::prelude::*;

verus! {

#[derive(Clone, Debug, PartialEq, Eq, Hash)]
pub struct DsaSparseMlaPrefillKernelConfig {
    pub backends: Vec<&'static str>,
    pub gpu_name: String,
    pub max_model_len: u32,
    pub num_heads: Dim,
    pub num_kv_heads: Dim,
    pub selected_k: u32,
    pub latent_dim: Dim,
    pub rope_dim: Dim,
    pub value_dim: Dim,
    pub softmax_scale_denominator: u32,
    pub q_dtype: DType,
    pub cache_dtype: DType,
    pub index_dtype: String,
    pub output_dtype: DType,
    pub index_distribution: String,
    pub cache_layout: String,
}

impl KernelConfig for DsaSparseMlaPrefillKernelConfig {
    const BACKENDS_FIELD: &'static str = "DsaSparseMlaPrefillKernelConfig.backends";

    open spec fn candidates(&self) -> Seq<&'static str> {
        self.backends@
    }

    open spec fn gpu(&self) -> Seq<char> {
        self.gpu_name@
    }

    open spec fn compute(&self) -> Option<DType> {
        Some(self.q_dtype)
    }

    open spec fn kv(&self) -> Option<DType> {
        Some(self.cache_dtype)
    }

    open spec fn description(&self) -> Seq<(Seq<char>, ConfigTerm)> {
        seq![
            ("backends"@, ConfigTerm::Names(self.backends@)),
            ("gpu_name"@, ConfigTerm::Text(self.gpu_name@)),
            ("max_model_len"@, ConfigTerm::Number(self.max_model_len as nat)),
            ("num_heads"@, ConfigTerm::Dimension(self.num_heads@)),
            ("num_kv_heads"@, ConfigTerm::Dimension(self.num_kv_heads@)),
            ("selected_k"@, ConfigTerm::Number(self.selected_k as nat)),
            ("latent_dim"@, ConfigTerm::Dimension(self.latent_dim@)),
            ("rope_dim"@, ConfigTerm::Dimension(self.rope_dim@)),
            ("value_dim"@, ConfigTerm::Dimension(self.value_dim@)),
            (
                "softmax_scale_denominator"@,
                ConfigTerm::Number(self.softmax_scale_denominator as nat),
            ),
            ("q_dtype"@, ConfigTerm::Precision(self.q_dtype)),
            ("cache_dtype"@, ConfigTerm::Precision(self.cache_dtype)),
            ("index_dtype"@, ConfigTerm::Text(self.index_dtype@)),
            ("output_dtype"@, ConfigTerm::Precision(self.output_dtype)),
            ("index_distribution"@, ConfigTerm::Text(self.index_distribution@)),
            ("cache_layout"@, ConfigTerm::Text(self.cache_layout@)),
        ]
    }

    fn backends(&self) -> (r: &Vec<&'static str>) {
        &self.backends
    }

    fn gpu_name(&self) -> (r: &str) {
        self.gpu_name.as_str()
    }

    fn compute_dtype(&self) -> (r: Option<DType>) {
        Some(self.q_dtype)
    }

    fn kv_dtype(&self) -> (r: Option<DType>) {
        Some(self.cache_dtype)
    }

    fn describe_config(&self) -> (r: Vec<ConfigField>) {
        let r: Vec<ConfigField> = vec![
            field("backends", names_of(&self.backends)),
            field("gpu_name", text_of(self.gpu_name.as_str())),
            field("max_model_len", number_of(self.max_model_len)),
            field("num_heads", dimension_of(&self.num_heads)),
            field("num_kv_heads", dimension_of(&self.num_kv_heads)),
            field("selected_k", number_of(self.selected_k)),
            field("latent_dim", dimension_of(&self.latent_dim)),
            field("rope_dim", dimension_of(&self.rope_dim)),
            field("value_dim", dimension_of(&self.value_dim)),
            field("softmax_scale_denominator", number_of(self.softmax_scale_denominator)),
            field("q_dtype", precision_of(self.q_dtype)),
            field("cache_dtype", precision_of(self.cache_dtype)),
            field("index_dtype", text_of(self.index_dtype.as_str())),
            field("output_dtype", precision_of(self.output_dtype)),
            field("index_distribution", text_of(self.index_distribution.as_str())),
            field("cache_layout", text_of(self.cache_layout.as_str())),
        ];
        assert(fields_view(r@) =~= self.description());
        r
    }
}

/// One complete batch: the query rows and the context of every request.
#[derive(Clone, Debug, PartialEq, Eq, Hash)]
pub struct DsaSparseMlaPrefillKernelInput {
    pub query_context_pairs: Vec<(u32, u32)>,
}

/// Numerator of the causally equivalent context, over `2 * queries * requests`: the
/// mean causal context per row, plus half of an even request's rows less one.
pub open spec fn endpoint_numerator(pairs: Seq<(u32, u32)>) -> int {
    let requests = pairs.len() as int;
    let queries = total_queries(pairs);
    requests * doubled_causal_context(pairs) + queries * (queries - requests)
}

pub open spec fn endpoint_denominator(pairs: Seq<(u32, u32)>) -> int {
    2 * total_queries(pairs) * pairs.len()
}

/// A batch of one request ends at that request's own context.
pub proof fn single_request_keeps_context(pair: (u32, u32))
    requires
        0 < pair.0 <= pair.1,
    ensures
        endpoint_numerator(seq![pair]) == pair.1 * endpoint_denominator(seq![pair]),
{
    let pairs = seq![pair];
    assert(pairs.drop_last() =~= Seq::<(u32, u32)>::empty());
    reveal_with_fuel(total_queries, 2);
    reveal_with_fuel(doubled_causal_context, 2);
    let q = pair.0 as int;
    let c = pair.1 as int;
    assert(1 * (q * (2 * c - q + 1)) + q * (q - 1) == c * (2 * q * 1)) by (nonlinear_arith);
}

/// The causal context of equal requests.
proof fn causal_context_of_equals(pairs: Seq<(u32, u32)>, rows: int, context: int)
    requires
        forall|i: int|
            0 <= i < pairs.len() ==> #[trigger] pairs[i].0 == rows && pairs[i].1 == context,
    ensures
        doubled_causal_context(pairs) == pairs.len() * (rows * (2 * context - rows + 1)),
    decreases pairs.len(),
{
    if pairs.len() > 0 {
        let front = pairs.drop_last();
        assert forall|i: int| 0 <= i < front.len() implies #[trigger] front[i].0 == rows
            && front[i].1 == context by {
            assert(pairs[i] == front[i]);
        }
        causal_context_of_equals(front, rows, context);
        assert(pairs[pairs.len() - 1].0 == rows);
        let each = rows * (2 * context - rows + 1);
        assert((pairs.len() - 1) * each + each == pairs.len() * each) by (nonlinear_arith);
    }
}

/// A batch spread over requests of equal length stands at the context that it was
/// spread for.
pub proof fn equal_requests_keep_context(queries: int, requests: int, context: int)
    requires
        1 <= requests <= queries <= u32::MAX,
        queries % requests == 0,
        0 <= context <= u32::MAX,
    ensures
        total_queries(even_batch(queries, requests, context)) == queries,
        even_batch(queries, requests, context).len() == requests,
        endpoint_numerator(even_batch(queries, requests, context)) == context
            * endpoint_denominator(even_batch(queries, requests, context)),
{
    let pairs = even_batch(queries, requests, context);
    let rows = queries / requests;
    even_batch_totals(queries, requests, context);
    assert(queries == rows * requests && 0 <= rows <= queries) by (nonlinear_arith)
        requires
            queries % requests == 0,
            rows == queries / requests,
            1 <= requests <= queries,
    ;
    assert forall|i: int| 0 <= i < pairs.len() implies #[trigger] pairs[i].0 == rows && pairs[i].1
        == context by {}
    causal_context_of_equals(pairs, rows, context);
    let each = rows * (2 * context - rows + 1);
    assert(requests * (requests * each) + queries * (queries - requests) == context * (2 * queries
        * requests)) by (nonlinear_arith)
        requires
            queries == rows * requests,
            each == rows * (2 * context - rows + 1),
    ;
}

/// No batch has fewer rows than requests.
proof fn rows_at_least_requests(pairs: Seq<(u32, u32)>)
    requires
        requests_ok(pairs),
    ensures
        total_queries(pairs) >= pairs.len(),
    decreases pairs.len(),
{
    if pairs.len() > 0 {
        let front = pairs.drop_last();
        assert forall|i: int| 0 <= i < front.len() implies 0 < #[trigger] front[i].0
            <= front[i].1 by {
            assert(pairs[i] == front[i]);
        }
        rows_at_least_requests(front);
        assert(0 < pairs[pairs.len() - 1].0);
    }
}

impl SweepCoords for DsaSparseMlaPrefillKernelInput {
    open spec fn well_shaped(&self) -> bool {
        batch_ok(self.query_context_pairs@, 64, 8192)
    }

    open spec fn position(&self) -> Seq<Ratio> {
        seq![
            whole(total_queries(self.query_context_pairs@)),
            whole(self.query_context_pairs@.len() as int),
            (Ratio {
                numerator: endpoint_numerator(self.query_context_pairs@) as u64,
                denominator: endpoint_denominator(self.query_context_pairs@) as u64,
            }),
        ]
    }

    open spec fn axis_names() -> Seq<Seq<char>> {
        seq!["num_queries"@, "num_requests"@, "causal_equivalent_context"@]
    }

    fn is_well_shaped(&self) -> (r: bool) {
        can_launch(&self.query_context_pairs)
    }

    fn coords(&self) -> (r: Vec<Ratio>) {
        let totals: BatchTotals = batch_totals(&self.query_context_pairs);
        let requests: u64 = self.query_context_pairs.len() as u64;
        let queries: u64 = totals.queries as u64;
        let causal: u64 = totals.doubled_causal;
        proof {
            rows_at_least_requests(self.query_context_pairs@);
            assert(0 <= requests * causal <= 64 * (8192 * (2 * u32::MAX))) by (nonlinear_arith)
                requires
                    0 <= requests <= 64,
                    0 <= causal <= 8192 * (2 * u32::MAX),
            ;
            assert(0 <= queries * (queries - requests) <= 8192 * 8192) by (nonlinear_arith)
                requires
                    0 <= requests <= queries <= 8192,
            ;
            assert(0 <= 2 * queries * requests <= 2 * 8192 * 64) by (nonlinear_arith)
                requires
                    0 <= requests <= 64,
                    0 <= queries <= 8192,
            ;
        }
        let numerator: u64 = requests * causal + queries * (queries - requests);
        let denominator: u64 = 2 * queries * requests;
        let r: Vec<Ratio> = vec![
            Ratio::from_whole(totals.queries),
            Ratio::from_whole(requests as u32),
            Ratio { numerator, denominator },
        ];
        assert(r@ =~= self.position());
        r
    }

    fn coord_field_names() -> (r: Vec<&'static str>) {
        let r: Vec<&'static str> = vec!["num_queries", "num_requests", "causal_equivalent_context"];
        assert(r@.map_values(|name: &'static str| name@) =~= Self::axis_names());
        r
    }
}

/// The even batch of a cell, if there is one.
pub open spec fn canonical_batch(queries: int, requests: int, context: int) -> Option<
    Seq<(u32, u32)>,
> {
    if requests == 0 || requests > queries || requests > 64 {
        None
    } else {
        feasible_even_batch(queries, requests, context)
    }
}

/// The even batch of a cell, if there is one.
pub fn canonical_pairs(num_queries: u32, num_requests: u32, context: u32) -> (r: Option<
    Vec<(u32, u32)>,
>)
    ensures
        match r {
            Some(pairs) => canonical_batch(
                num_queries as int,
                num_requests as int,
                context as int,
            ) == Some(pairs@),
            None => canonical_batch(num_queries as int, num_requests as int, context as int) is None,
        },
{
    if num_requests == 0 || num_requests > num_queries || num_requests > 64 {
        return None;
    }
    spread_evenly(num_queries, num_requests, context)
}

pub struct DsaSparseMlaPrefillSpec;

impl KernelSpec for DsaSparseMlaPrefillSpec {
    type Config = DsaSparseMlaPrefillKernelConfig;

    type Input = DsaSparseMlaPrefillKernelInput;

    const KIND: KernelKind = "dsa_sparse_mla_prefill";

    open spec fn admits(config: DsaSparseMlaPrefillKernelConfig) -> bool {
        config.max_model_len > 0 && config.softmax_scale_denominator > 0
    }

    open spec fn axes(config: DsaSparseMlaPrefillKernelConfig, tokens: Seq<u32>) -> Seq<Seq<u32>> {
        seq![
            seq![1u32, 8, 24, 64, 128, 256, 512, 1024, 1536, 2048, 8192],
            seq![1u32, 2, 4, 8, 16, 64],
            at_most(
                seq![1u32, 32, 128, 192, 256, 512, 1024, 2048, 4096, 8192, 65536, 1048576],
                config.max_model_len as int,
            ),
        ]
    }

    open spec fn units(axes: Seq<Seq<u32>>) -> Seq<u32> {
        whole_units(axes)
    }

    open spec fn table(backend: Seq<char>) -> CacheKind {
        CacheKind::Cache3DLinear
    }

    open spec fn masks() -> bool {
        true
    }

    open spec fn judges(config: DsaSparseMlaPrefillKernelConfig, cell: Seq<u32>) -> bool {
        cell.len() == 3
    }

    open spec fn infeasible(config: DsaSparseMlaPrefillKernelConfig, cell: Seq<u32>) -> bool {
        canonical_batch(cell[0] as int, cell[1] as int, cell[2] as int) is None
    }

    open spec fn table_position(
        config: DsaSparseMlaPrefillKernelConfig,
        input: DsaSparseMlaPrefillKernelInput,
    ) -> Seq<Ratio> {
        input.position()
    }

    open spec fn answers(
        config: DsaSparseMlaPrefillKernelConfig,
        input: DsaSparseMlaPrefillKernelInput,
    ) -> bool {
        input.well_shaped()
    }

    fn profile_kind() -> (r: KernelKind) {
        Self::KIND
    }

    fn can_sweep(config: &DsaSparseMlaPrefillKernelConfig) -> (r: bool) {
        config.max_model_len > 0 && config.softmax_scale_denominator > 0
    }

    fn sweep_grid(config: &DsaSparseMlaPrefillKernelConfig, tokens: &Vec<u32>) -> (r: SweepGrid) {
        let contexts: Vec<u32> = vec![1, 32, 128, 192, 256, 512, 1024, 2048, 4096, 8192, 65536, 1048576];
        assert(contexts@ =~= seq![1u32, 32, 128, 192, 256, 512, 1024, 2048, 4096, 8192, 65536, 1048576]);
        let a0: Vec<u32> = Axis::values(vec![1, 8, 24, 64, 128, 256, 512, 1024, 1536, 2048, 8192]);
        let a1: Vec<u32> = Axis::values(vec![1, 2, 4, 8, 16, 64]);
        let a2: Vec<u32> = Axis::up_to(&contexts, config.max_model_len);
        let r = SweepGrid::new(vec![a0, a1, a2]);
        proof {
            assert(r.points() =~= Self::axes(*config, tokens@));
            assert(r.scale() =~= whole_units(r.points()));
        }
        r
    }

    fn cache_kind(backend: &str) -> (r: CacheKind) {
        CacheKind::Cache3DLinear
    }

    fn has_mask() -> (r: bool) {
        true
    }

    fn is_infeasible(config: &DsaSparseMlaPrefillKernelConfig, cell: &Vec<u32>) -> (r: bool) {
        canonical_pairs(cell[0], cell[1], cell[2]).is_none()
    }

    fn can_answer(
        config: &DsaSparseMlaPrefillKernelConfig,
        input: &DsaSparseMlaPrefillKernelInput,
    ) -> (r: bool) {
        input.is_well_shaped()
    }

    fn cache_coords(
        config: &DsaSparseMlaPrefillKernelConfig,
        input: &DsaSparseMlaPrefillKernelInput,
    ) -> (r: Vec<Ratio>) {
        input.coords()
    }

    proof fn sweep_fits_table(
        config: DsaSparseMlaPrefillKernelConfig,
        tokens: Seq<u32>,
        backend: Seq<char>,
    ) {
    }

    proof fn sweep_is_judged(
        config: DsaSparseMlaPrefillKernelConfig,
        tokens: Seq<u32>,
        index: nat,
    ) {
        cell_on_axes(Self::axes(config, tokens), index);
    }

    proof fn queries_fit_table(
        config: DsaSparseMlaPrefillKernelConfig,
        input: DsaSparseMlaPrefillKernelInput,
        backend: Seq<char>,
    ) {
    }
}

impl CellPayloads for DsaSparseMlaPrefillSpec {
    open spec fn covers(config: DsaSparseMlaPrefillKernelConfig, cell: Seq<u32>) -> bool {
        cell.len() == 3
    }

    open spec fn enumerates(config: DsaSparseMlaPrefillKernelConfig) -> bool {
        true
    }

    open spec fn fields(
        config: DsaSparseMlaPrefillKernelConfig,
        cell: Seq<u32>,
        backend: Seq<char>,
    ) -> Map<Seq<char>, WireValue> {
        let pairs = match canonical_batch(cell[0] as int, cell[1] as int, cell[2] as int) {
            Some(pairs) => pairs,
            None => seq![(1u32, 1u32)],
        };
        Map::<Seq<char>, WireValue>::empty()
            .insert("query_context_pairs"@, WireValue::Pairs(pairs))
            .insert("num_heads"@, WireValue::Number(config.num_heads@.fold() as nat))
            .insert("num_kv_heads"@, WireValue::Number(config.num_kv_heads@.fold() as nat))
            .insert("selected_k"@, WireValue::Number(config.selected_k as nat))
            .insert("latent_dim"@, WireValue::Number(config.latent_dim@.fold() as nat))
            .insert("rope_dim"@, WireValue::Number(config.rope_dim@.fold() as nat))
            .insert("value_dim"@, WireValue::Number(config.value_dim@.fold() as nat))
            .insert(
                "softmax_scale"@,
                WireValue::Real(Real::Reciprocal(config.softmax_scale_denominator)),
            )
            .insert("q_dtype"@, WireValue::Text(dtype_text(config.q_dtype)))
            .insert("cache_dtype"@, WireValue::Text(dtype_text(config.cache_dtype)))
            .insert("index_dtype"@, WireValue::Text(config.index_dtype@))
            .insert("output_dtype"@, WireValue::Text(dtype_text(config.output_dtype)))
            .insert("index_distribution"@, WireValue::Text(config.index_distribution@))
            .insert("cache_layout"@, WireValue::Text(config.cache_layout@))
            .insert("backend"@, WireValue::Text(backend))
    }

    fn can_enumerate(config: &DsaSparseMlaPrefillKernelConfig) -> (r: bool) {
        true
    }

    fn cell_payload(
        config: &DsaSparseMlaPrefillKernelConfig,
        cell: &Vec<u32>,
        backend: &str,
    ) -> (r: ArgsPayload) {
        let pairs: Vec<(u32, u32)> = match canonical_pairs(cell[0], cell[1], cell[2]) {
            Some(pairs) => pairs,
            None => {
                let one: Vec<(u32, u32)> = vec![(1, 1)];
                assert(one@ =~= seq![(1u32, 1u32)]);
                one
            },
        };
        ArgsPayload::new()
            .with("query_context_pairs", PayloadValue::Pairs(pairs))
            .with("num_heads", number_value(config.num_heads.get()))
            .with("num_kv_heads", number_value(config.num_kv_heads.get()))
            .with("selected_k", number_value(config.selected_k))
            .with("latent_dim", number_value(config.latent_dim.get()))
            .with("rope_dim", number_value(config.rope_dim.get()))
            .with("value_dim", number_value(config.value_dim.get()))
            .with(
                "softmax_scale",
                PayloadValue::Real(Real::Reciprocal(config.softmax_scale_denominator)),
            )
            .with("q_dtype", text_value(config.q_dtype.as_str()))
            .with("cache_dtype", text_value(config.cache_dtype.as_str()))
            .with("index_dtype", text_value(config.index_dtype.as_str()))
            .with("output_dtype", text_value(config.output_dtype.as_str()))
            .with("index_distribution", text_value(config.index_distribution.as_str()))
            .with("cache_layout", text_value(config.cache_layout.as_str()))
            .with("backend", text_value(backend))
    }

    proof fn sweep_is_covered(
        config: DsaSparseMlaPrefillKernelConfig,
        tokens: Seq<u32>,
        index: nat,
    ) {
        cell_on_axes(Self::axes(config, tokens), index);
    }

    proof fn fields_name_backend(
        config: DsaSparseMlaPrefillKernelConfig,
        cell: Seq<u32>,
        backend: Seq<char>,
    ) {
    }

    open spec fn describes(
        config: DsaSparseMlaPrefillKernelConfig,
        fields: Map<Seq<char>, WireValue>,
        input: DsaSparseMlaPrefillKernelInput,
    ) -> bool {
        pairs_at(fields, "query_context_pairs"@) == input.query_context_pairs@
    }

    open spec fn occurs(config: DsaSparseMlaPrefillKernelConfig, cell: Seq<u32>) -> bool {
        cell[1] > 0 && cell[0] as int % cell[1] as int == 0
    }

    open spec fn kept_back() -> Set<Seq<char>> {
        set!["backends"@, "gpu_name"@, "max_model_len"@, "softmax_scale_denominator"@]
    }

    proof fn payload_stands_at_its_cell(
        config: DsaSparseMlaPrefillKernelConfig,
        tokens: Seq<u32>,
        index: nat,
        backend: Seq<char>,
        input: DsaSparseMlaPrefillKernelInput,
    ) {
        cell_on_axes(Self::axes(config, tokens), index);
        reveal_strlit("query_context_pairs");
        reveal_strlit("num_heads");
        reveal_strlit("num_kv_heads");
        reveal_strlit("selected_k");
        reveal_strlit("latent_dim");
        reveal_strlit("rope_dim");
        reveal_strlit("value_dim");
        reveal_strlit("softmax_scale");
        reveal_strlit("q_dtype");
        reveal_strlit("cache_dtype");
        reveal_strlit("index_dtype");
        reveal_strlit("output_dtype");
        reveal_strlit("index_distribution");
        reveal_strlit("cache_layout");
        reveal_strlit("backend");
        assert("query_context_pairs"@.len() == 19);
        assert("num_heads"@.len() == 9);
        assert("num_kv_heads"@.len() == 12);
        assert("selected_k"@.len() == 10);
        assert("latent_dim"@.len() == 10);
        assert("rope_dim"@.len() == 8);
        assert("value_dim"@.len() == 9);
        assert("softmax_scale"@.len() == 13);
        assert("q_dtype"@.len() == 7);
        assert("cache_dtype"@.len() == 11);
        assert("index_dtype"@.len() == 11);
        assert("output_dtype"@.len() == 12);
        assert("index_distribution"@.len() == 18);
        assert("cache_layout"@.len() == 12);
        assert("backend"@.len() == 7);
        let cell = cell_at(Self::axes(config, tokens), index);
        let queries = cell[0] as int;
        let requests = cell[1] as int;
        let context = cell[2] as int;
        assert(Self::axes(config, tokens)[0].contains(cell[0]));
        assert(1 <= queries <= 8192);
        equal_requests_keep_context(queries, requests, context);
        even_batch_totals(queries, requests, context);
        let pairs = input.query_context_pairs@;
        assert forall|i: int| 0 <= i < pairs.len() implies 0 < #[trigger] pairs[i].0
            <= pairs[i].1 by {
            assert(even_share(queries, requests, i) <= even_share(queries, requests, 0));
            assert(queries / requests >= 1) by (nonlinear_arith)
                requires
                    1 <= requests <= queries,
            ;
        }
        let scale = endpoint_denominator(pairs);
        assert(0 < scale <= 1048576) by (nonlinear_arith)
            requires
                scale == 2 * queries * requests,
                1 <= queries <= 8192,
                1 <= requests <= 64,
        ;
        assert(0 <= context * scale <= u64::MAX) by (nonlinear_arith)
            requires
                0 <= context <= u32::MAX,
                0 < scale <= 1048576,
        ;
        let at = Self::table_position(config, input);
        assert(at[0] == whole(cell[0] as int));
        assert(at[1] == whole(cell[1] as int));
        assert(at[2].numerator == cell[2] * at[2].denominator);
        stands_on_whole_units(at, cell, Self::units(Self::axes(config, tokens)));
    }

    proof fn payload_carries_config(
        config: DsaSparseMlaPrefillKernelConfig,
        cell: Seq<u32>,
        backend: Seq<char>,
        i: int,
    ) {
        reveal_strlit("num_heads");
        reveal_strlit("num_kv_heads");
        reveal_strlit("selected_k");
        reveal_strlit("latent_dim");
        reveal_strlit("rope_dim");
        reveal_strlit("value_dim");
        reveal_strlit("softmax_scale");
        reveal_strlit("q_dtype");
        reveal_strlit("cache_dtype");
        reveal_strlit("index_dtype");
        reveal_strlit("output_dtype");
        reveal_strlit("index_distribution");
        reveal_strlit("cache_layout");
        reveal_strlit("backend");
        assert("num_heads"@.len() == 9 && "num_heads"@[0] == 'n');
        assert("num_kv_heads"@.len() == 12 && "num_kv_heads"@[0] == 'n');
        assert("selected_k"@.len() == 10 && "selected_k"@[0] == 's');
        assert("latent_dim"@.len() == 10 && "latent_dim"@[0] == 'l');
        assert("rope_dim"@.len() == 8);
        assert("value_dim"@.len() == 9 && "value_dim"@[0] == 'v');
        assert("softmax_scale"@.len() == 13);
        assert("q_dtype"@.len() == 7 && "q_dtype"@[0] == 'q');
        assert("cache_dtype"@.len() == 11 && "cache_dtype"@[0] == 'c');
        assert("index_dtype"@.len() == 11 && "index_dtype"@[0] == 'i');
        assert("output_dtype"@.len() == 12 && "output_dtype"@[0] == 'o');
        assert("index_distribution"@.len() == 18);
        assert("cache_layout"@.len() == 12 && "cache_layout"@[0] == 'c');
        assert("backend"@.len() == 7 && "backend"@[0] == 'b');
        let fields = Self::fields(config, cell, backend);
        let terms = config.description();
        assert(carries(fields, terms[3]));
        assert(carries(fields, terms[4]));
        assert(carries(fields, terms[5]));
        assert(carries(fields, terms[6]));
        assert(carries(fields, terms[7]));
        assert(carries(fields, terms[8]));
        assert(carries(fields, terms[10]));
        assert(carries(fields, terms[11]));
        assert(carries(fields, terms[12]));
        assert(carries(fields, terms[13]));
        assert(carries(fields, terms[14]));
        assert(carries(fields, terms[15]));
    }

    proof fn described_alike_is_profiled_alike(
        a: DsaSparseMlaPrefillKernelConfig,
        b: DsaSparseMlaPrefillKernelConfig,
        tokens: Seq<u32>,
        cell: Seq<u32>,
        backend: Seq<char>,
    ) {
        let (x, y) = (a.description(), b.description());
        assert(x[0] == y[0]);
        assert(x[1] == y[1]);
        assert(x[2] == y[2]);
        assert(x[3] == y[3]);
        assert(x[4] == y[4]);
        assert(x[5] == y[5]);
        assert(x[6] == y[6]);
        assert(x[7] == y[7]);
        assert(x[8] == y[8]);
        assert(x[9] == y[9]);
        assert(x[10] == y[10]);
        assert(x[11] == y[11]);
        assert(x[12] == y[12]);
        assert(x[13] == y[13]);
        assert(x[14] == y[14]);
        assert(x[15] == y[15]);
    }
}

/// The softmax scale is one over the denominator that the configuration holds.
pub proof fn softmax_scale_is_carried(
    config: DsaSparseMlaPrefillKernelConfig,
    cell: Seq<u32>,
    backend: Seq<char>,
)
    ensures
        DsaSparseMlaPrefillSpec::fields(config, cell, backend)["softmax_scale"@]
            == WireValue::Real(Real::Reciprocal(config.softmax_scale_denominator)),
{
    reveal_strlit("softmax_scale");
    reveal_strlit("q_dtype");
    reveal_strlit("cache_dtype");
    reveal_strlit("index_dtype");
    reveal_strlit("output_dtype");
    reveal_strlit("index_distribution");
    reveal_strlit("cache_layout");
    reveal_strlit("backend");
    assert("softmax_scale"@.len() == 13);
    assert("q_dtype"@.len() == 7);
    assert("cache_dtype"@.len() == 11);
    assert("index_dtype"@.len() == 11);
    assert("output_dtype"@.len() == 12);
    assert("index_distribution"@.len() == 18);
    assert("cache_layout"@.len() == 12);
    assert("backend"@.len() == 7);
}

/// The context that a batch stands at is that of equal requests: as many of them, with
/// that context and an even share of the rows each, see as much as the batch does.
pub proof fn endpoint_spreads_what_rows_see(input: DsaSparseMlaPrefillKernelInput)
    requires
        input.well_shaped(),
        endpoint_numerator(input.query_context_pairs@) <= u64::MAX,
    ensures
        ({
            let pairs = input.query_context_pairs@;
            let at = input.position()[2];
            let (rows, requests) = (total_queries(pairs), pairs.len() as int);
            &&& at.denominator > 0
            &&& rows * (2 * (at.numerator * requests) - (rows - requests) * at.denominator)
                == requests * doubled_causal_context(pairs) * at.denominator
        }),
{
    let pairs = input.query_context_pairs@;
    let (rows, requests) = (total_queries(pairs), pairs.len() as int);
    let seen = doubled_causal_context(pairs);
    requests_rows_and_context_ascend(pairs);
    causal_context_not_negative(pairs);
    let over = 2 * rows * requests;
    let top = requests * seen + rows * (rows - requests);
    assert(0 < over <= 1048576 && top >= 0) by (nonlinear_arith)
        requires
            over == 2 * rows * requests,
            top == requests * seen + rows * (rows - requests),
            0 < requests <= rows,
            rows <= 8192,
            requests <= 64,
            seen >= 0,
    ;
    let spread = rows * (rows - requests);
    let both = requests * seen;
    assert(2 * (top * requests) == 2 * (both * requests) + 2 * (spread * requests))
        by (nonlinear_arith)
        requires
            top == both + spread,
    ;
    assert((rows - requests) * over == 2 * (spread * requests)) by (nonlinear_arith)
        requires
            over == 2 * rows * requests,
            spread == rows * (rows - requests),
    ;
    assert(rows * (2 * (both * requests)) == both * over) by (nonlinear_arith)
        requires
            over == 2 * rows * requests,
    ;
}

proof fn causal_context_not_negative(pairs: Seq<(u32, u32)>)
    requires
        requests_ok(pairs),
    ensures
        doubled_causal_context(pairs) >= 0,
    decreases pairs.len(),
{
    if pairs.len() > 0 {
        let front = pairs.drop_last();
        assert forall|i: int| 0 <= i < front.len() implies 0 < #[trigger] front[i].0
            <= front[i].1 by {
            assert(pairs[i] == front[i]);
        }
        causal_context_not_negative(front);
        let last = pairs[pairs.len() - 1];
        let (q, c) = (last.0 as int, last.1 as int);
        assert(q * (2 * c - q + 1) >= 0) by (nonlinear_arith)
            requires
                0 < q <= c,
        ;
    }
}

/// The squares of the rows of all requests, added up.
spec fn squares(pairs: Seq<(u32, u32)>) -> int
    decreases pairs.len(),
{
    if pairs.len() == 0 {
        0
    } else {
        squares(pairs.drop_last()) + pairs.last().0 * pairs.last().0
    }
}

proof fn squares_around(pairs: Seq<(u32, u32)>, x: int)
    ensures
        squares(pairs) + pairs.len() * (x * x) - 2 * (x * total_queries(pairs)) >= 0,
    decreases pairs.len(),
{
    if pairs.len() > 0 {
        squares_around(pairs.drop_last(), x);
        let (n, y, t) = (
            pairs.len() as int,
            pairs.last().0 as int,
            total_queries(pairs.drop_last()),
        );
        assert(n * (x * x) == (n - 1) * (x * x) + x * x) by (nonlinear_arith);
        assert(x * (t + y) == x * t + x * y) by (nonlinear_arith);
        assert(y * y + x * x - 2 * (x * y) >= 0) by (nonlinear_arith);
    } else {
        assert(0 * (x * x) == 0 && x * 0 == 0) by (nonlinear_arith);
    }
}

/// Uneven rows have larger squares than even ones.
proof fn squares_exceed_even(pairs: Seq<(u32, u32)>)
    ensures
        pairs.len() * squares(pairs) >= total_queries(pairs) * total_queries(pairs),
    decreases pairs.len(),
{
    if pairs.len() > 0 {
        let front = pairs.drop_last();
        squares_exceed_even(front);
        squares_around(front, pairs.last().0 as int);
        let (n, y, t, s) = (
            front.len() as int,
            pairs.last().0 as int,
            total_queries(front),
            squares(front),
        );
        assert((n + 1) * (s + y * y) == n * s + s + n * (y * y) + y * y) by (nonlinear_arith);
        assert((t + y) * (t + y) == t * t + 2 * (y * t) + y * y) by (nonlinear_arith);
    } else {
        assert(0 * squares(pairs) == 0) by (nonlinear_arith);
    }
}

/// Every row sees at least the rows of its request up to itself.
proof fn rows_see_themselves(pairs: Seq<(u32, u32)>)
    requires
        requests_ok(pairs),
    ensures
        doubled_causal_context(pairs) >= squares(pairs) + total_queries(pairs),
    decreases pairs.len(),
{
    if pairs.len() > 0 {
        let front = pairs.drop_last();
        assert forall|i: int| 0 <= i < front.len() implies 0 < #[trigger] front[i].0
            <= front[i].1 by {
            assert(pairs[i] == front[i]);
        }
        rows_see_themselves(front);
        let last = pairs[pairs.len() - 1];
        let (q, c) = (last.0 as int, last.1 as int);
        assert(q * (2 * c - q + 1) >= q * q + q) by (nonlinear_arith)
            requires
                0 < q <= c,
        ;
    }
}

/// A cell that is left out is the place of no launch: whatever batch has a cell's rows,
/// requests and equivalent context, the cell has an even batch too.
pub proof fn every_launch_has_its_cell(cell: Seq<u32>, input: DsaSparseMlaPrefillKernelInput)
    requires
        cell.len() == 3,
        input.well_shaped(),
        endpoint_numerator(input.query_context_pairs@) <= u64::MAX,
        stands_at(input.position(), cell, seq![1, 1, 1]),
    ensures
        canonical_batch(cell[0] as int, cell[1] as int, cell[2] as int) is Some,
{
    let pairs = input.query_context_pairs@;
    let (rows, requests) = (total_queries(pairs), pairs.len() as int);
    let seen = doubled_causal_context(pairs);
    let context = cell[2] as int;
    requests_rows_and_context_ascend(pairs);
    causal_context_not_negative(pairs);
    squares_exceed_even(pairs);
    rows_see_themselves(pairs);
    let at = input.position();
    standing_is_value(at, cell, seq![1, 1, 1], 0);
    standing_is_value(at, cell, seq![1, 1, 1], 1);
    standing_is_value(at, cell, seq![1, 1, 1], 2);
    let over = 2 * rows * requests;
    let top = requests * seen + rows * (rows - requests);
    assert(0 < over <= 1048576 && top >= 0) by (nonlinear_arith)
        requires
            over == 2 * rows * requests,
            top == requests * seen + rows * (rows - requests),
            0 < requests <= rows,
            rows <= 8192,
            requests <= 64,
            seen >= 0,
    ;
    let length = at[2].denominator as int;
    assert(length == over && context * length == top);
    let sum = squares(pairs);
    assert(requests * seen >= requests * sum + requests * rows) by (nonlinear_arith)
        requires
            seen >= sum + rows,
            requests > 0,
    ;
    assert(rows * (rows - requests) == rows * rows - requests * rows) by (nonlinear_arith);
    assert(top >= 2 * (rows * rows));
    assert(rows <= requests * context) by (nonlinear_arith)
        requires
            context * length >= 2 * (rows * rows),
            length == 2 * rows * requests,
            rows > 0,
    ;
    even_share_fits(rows, requests, context);
}

/// The kernel computes in the precision that is described as `q_dtype` and keeps its cache
/// in the precision that is described as `cache_dtype`.
pub proof fn precisions_are_described(config: DsaSparseMlaPrefillKernelConfig)
    ensures
        config.compute() matches Some(precision) && config.description()[10] == (
            "q_dtype"@,
            ConfigTerm::Precision(precision),
        ),
        config.kv() matches Some(precision) && config.description()[11] == (
            "cache_dtype"@,
            ConfigTerm::Precision(precision),
        ),
{
}

} // verus!
