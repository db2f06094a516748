//! Prefill logits of the indexer over one complete batch of requests.
//!
//! The table is built over the total of query rows, the mean context and the number of
//! requests; each cell stands for a batch that spreads its rows evenly.

use crate::bridge::payload::{
    dtype_text, flag_value, number_value, text_value, ArgsPayload, DType, KernelKind, PayloadValue,
    WireValue,
};
use crate::cache::CacheKind;
use crate::dims::Dim;
use crate::kernels::config::{
    bits_of, dimension_of, field, fields_view, flag_of, names_of, number_of, precision_of, text_of,
    ConfigField, ConfigTerm, KernelConfig,
};
use crate::kernels::engine::{
    carries, pairs_at, standing_is_value, stands_at, stands_on_whole_units, whole_units,
    CellPayloads, KernelSpec, SweepCoords,
};
use crate::kernels::request_split::{
    batch_ok, batch_totals, can_launch, even_batch_totals, even_share, even_share_fits,
    feasible_even_batch, requests_rows_and_context_ascend, spread_evenly, total_context,
    total_queries, totals_of_joined, BatchTotals,
};
use crate::sweep::{at_most, cell_at, cell_on_axes, whole, Axis, Ratio, SweepGrid};
use vstd::prelude::*;

verus! {

#[derive(Clone, Debug, PartialEq, Eq, Hash)]
pub struct DeepseekV4IndexerMqaLogitsPrefillKernelConfig {
    pub backends: Vec<&'static str>,
    pub gpu_name: String,
    pub max_model_len: u32,
    pub max_num_batched_tokens: u32,
    pub max_logits_bytes: u64,
    pub compress_ratio: u32,
    pub num_heads: Dim,
    pub head_dim: Dim,
    pub q_dtype: DType,
    pub k_dtype: DType,
    pub k_scale_dtype: DType,
    pub weight_dtype: DType,
    pub output_dtype: DType,
    pub clean_logits: bool,
}

impl KernelConfig for DeepseekV4IndexerMqaLogitsPrefillKernelConfig {
    const BACKENDS_FIELD: &'static str = "DeepseekV4IndexerMqaLogitsPrefillKernelConfig.backends";

    open spec fn candidates(&self) -> Seq<&'static str> {
        self.backends@
    }

    open spec fn gpu(&self) -> Seq<char> {
        self.gpu_name@
    }

    open spec fn compute(&self) -> Option<DType> {
        Some(self.q_dtype)
    }

    open spec fn kv(&self) -> Option<DType> {
        Some(self.k_dtype)
    }

    open spec fn description(&self) -> Seq<(Seq<char>, ConfigTerm)> {
        seq![
            ("backends"@, ConfigTerm::Names(self.backends@)),
            ("gpu_name"@, ConfigTerm::Text(self.gpu_name@)),
            ("max_model_len"@, ConfigTerm::Number(self.max_model_len as nat)),
            ("max_num_batched_tokens"@, ConfigTerm::Number(self.max_num_batched_tokens as nat)),
            ("max_logits_bytes"@, ConfigTerm::Number(self.max_logits_bytes as nat)),
            ("compress_ratio"@, ConfigTerm::Number(self.compress_ratio as nat)),
            ("num_heads"@, ConfigTerm::Dimension(self.num_heads@)),
            ("head_dim"@, ConfigTerm::Dimension(self.head_dim@)),
            ("q_dtype"@, ConfigTerm::Precision(self.q_dtype)),
            ("k_dtype"@, ConfigTerm::Precision(self.k_dtype)),
            ("k_scale_dtype"@, ConfigTerm::Precision(self.k_scale_dtype)),
            ("weight_dtype"@, ConfigTerm::Precision(self.weight_dtype)),
            ("output_dtype"@, ConfigTerm::Precision(self.output_dtype)),
            ("clean_logits"@, ConfigTerm::Flag(self.clean_logits)),
        ]
    }

    fn backends(&self) -> (r: &Vec<&'static str>) {
        &self.backends
    }

    fn gpu_name(&self) -> (r: &str) {
        self.gpu_name.as_str()
    }

    fn compute_dtype(&self) -> (r: Option<DType>) {
        Some(self.q_dtype)
    }

    fn kv_dtype(&self) -> (r: Option<DType>) {
        Some(self.k_dtype)
    }

    fn describe_config(&self) -> (r: Vec<ConfigField>) {
        let r: Vec<ConfigField> = vec![
            field("backends", names_of(&self.backends)),
            field("gpu_name", text_of(self.gpu_name.as_str())),
            field("max_model_len", number_of(self.max_model_len)),
            field("max_num_batched_tokens", number_of(self.max_num_batched_tokens)),
            field("max_logits_bytes", bits_of(self.max_logits_bytes)),
            field("compress_ratio", number_of(self.compress_ratio)),
            field("num_heads", dimension_of(&self.num_heads)),
            field("head_dim", dimension_of(&self.head_dim)),
            field("q_dtype", precision_of(self.q_dtype)),
            field("k_dtype", precision_of(self.k_dtype)),
            field("k_scale_dtype", precision_of(self.k_scale_dtype)),
            field("weight_dtype", precision_of(self.weight_dtype)),
            field("output_dtype", precision_of(self.output_dtype)),
            field("clean_logits", flag_of(self.clean_logits)),
        ];
        assert(fields_view(r@) =~= self.description());
        r
    }
}

/// One complete batch: the query rows and the context of every request.
#[derive(Clone, Debug, PartialEq, Eq, Hash)]
pub struct DeepseekV4IndexerPrefillKernelInput {
    pub query_context_pairs: Vec<(u32, u32)>,
}

impl SweepCoords for DeepseekV4IndexerPrefillKernelInput {
    open spec fn well_shaped(&self) -> bool {
        batch_ok(self.query_context_pairs@, 64, 8192)
    }

    open spec fn position(&self) -> Seq<Ratio> {
        seq![
            whole(total_queries(self.query_context_pairs@)),
            (Ratio {
                numerator: total_context(self.query_context_pairs@) as u64,
                denominator: self.query_context_pairs@.len() as u64,
            }),
            whole(self.query_context_pairs@.len() as int),
        ]
    }

    open spec fn axis_names() -> Seq<Seq<char>> {
        seq!["num_queries"@, "mean_context"@, "num_requests"@]
    }

    fn is_well_shaped(&self) -> (r: bool) {
        can_launch(&self.query_context_pairs)
    }

    fn coords(&self) -> (r: Vec<Ratio>) {
        let totals: BatchTotals = batch_totals(&self.query_context_pairs);
        let requests: u64 = self.query_context_pairs.len() as u64;
        let r: Vec<Ratio> = vec![
            Ratio::from_whole(totals.queries),
            Ratio { numerator: totals.context, denominator: requests },
            Ratio::from_whole(requests as u32),
        ];
        assert(r@ =~= self.position());
        r
    }

    fn coord_field_names() -> (r: Vec<&'static str>) {
        let r: Vec<&'static str> = vec!["num_queries", "mean_context", "num_requests"];
        assert(r@.map_values(|name: &'static str| name@) =~= Self::axis_names());
        r
    }
}

/// The axes of an indexer prefill sweep up to the model length.
pub open spec fn prefill_axes(max_model_len: int) -> Seq<Seq<u32>> {
    seq![
        seq![1u32, 4, 16, 64, 128, 256, 512, 1024, 2048, 4096, 8192],
        at_most(
            seq![4u32, 32, 128, 512, 2048, 8192, 32768, 65536, 262144, 1048576],
            max_model_len,
        ),
        seq![1u32, 4, 16, 64],
    ]
}

/// The sweep of indexer prefill up to the model length.
pub fn sweep_grid(max_model_len: u32) -> (r: SweepGrid)
    ensures
        r.points() == prefill_axes(max_model_len as int),
        r.scale() == whole_units(r.points()),
{
    let queries: Vec<u32> = vec![1, 4, 16, 64, 128, 256, 512, 1024, 2048, 4096, 8192];
    let contexts: Vec<u32> = vec![4, 32, 128, 512, 2048, 8192, 32768, 65536, 262144, 1048576];
    let requests: Vec<u32> = vec![1, 4, 16, 64];
    assert(contexts@ =~= seq![4u32, 32, 128, 512, 2048, 8192, 32768, 65536, 262144, 1048576]);
    let r = SweepGrid::new(vec![queries, Axis::up_to(&contexts, max_model_len), requests]);
    proof {
        assert(r.points() =~= prefill_axes(max_model_len as int));
        assert(r.scale() =~= whole_units(r.points()));
    }
    r
}

/// The even batch of a cell, if there is one.
pub open spec fn canonical_batch(queries: int, context: int, requests: int) -> Option<
    Seq<(u32, u32)>,
> {
    if requests == 0 || requests > queries {
        None
    } else {
        feasible_even_batch(queries, requests, context)
    }
}

/// The even batch of a cell, if there is one.
pub fn canonical_pairs(num_queries: u32, context: u32, num_requests: u32) -> (r: Option<
    Vec<(u32, u32)>,
>)
    ensures
        match r {
            Some(pairs) => canonical_batch(
                num_queries as int,
                context as int,
                num_requests as int,
            ) == Some(pairs@),
            None => canonical_batch(num_queries as int, context as int, num_requests as int) is None,
        },
{
    if num_requests == 0 || num_requests > num_queries {
        return None;
    }
    spread_evenly(num_queries, num_requests, context)
}

/// The batch that a cell is enumerated with; an impossible cell gets one query over
/// four context rows.
pub open spec fn enumerated_batch(cell: Seq<u32>) -> Seq<(u32, u32)> {
    match canonical_batch(cell[0] as int, cell[1] as int, cell[2] as int) {
        Some(pairs) => pairs,
        None => seq![(1u32, 4u32)],
    }
}

/// The batch that a cell is enumerated with.
pub fn enumerated_pairs(cell: &Vec<u32>) -> (r: Vec<(u32, u32)>)
    requires
        cell@.len() == 3,
    ensures
        r@ == enumerated_batch(cell@),
{
    match canonical_pairs(cell[0], cell[1], cell[2]) {
        Some(pairs) => pairs,
        None => {
            let r: Vec<(u32, u32)> = vec![(1, 4)];
            assert(r@ =~= seq![(1u32, 4u32)]);
            r
        },
    }
}

/// Whether a cell lies on the axes of an indexer prefill sweep.
pub open spec fn is_prefill_cell(max_model_len: int, cell: Seq<u32>) -> bool {
    &&& cell.len() == 3
    &&& forall|i: int|
        0 <= i < 3 ==> prefill_axes(max_model_len)[i].contains(#[trigger] cell[i])
}

/// The batch of a feasible cell can be launched, and stands at that cell: it has the
/// cell's query rows and requests, and its mean context is the cell's.
pub proof fn canonical_batch_projects_back(
    max_model_len: int,
    cell: Seq<u32>,
    input: DeepseekV4IndexerPrefillKernelInput,
)
    requires
        is_prefill_cell(max_model_len, cell),
        canonical_batch(cell[0] as int, cell[1] as int, cell[2] as int) == Some(
            input.query_context_pairs@,
        ),
    ensures
        input.well_shaped(),
        stands_at(input.position(), cell, seq![1, 1, 1]),
{
    let queries = cell[0] as int;
    let context = cell[1] as int;
    let requests = cell[2] as int;
    let pairs = input.query_context_pairs@;
    let axes = prefill_axes(max_model_len);
    assert(axes[0].contains(cell[0]) && axes[2].contains(cell[2]));
    assert(1 <= requests <= 64 && queries <= 8192);
    even_batch_totals(queries, requests, context);
    assert forall|i: int| 0 <= i < pairs.len() implies 0 < #[trigger] pairs[i].0
        <= pairs[i].1 by {
        assert(even_share(queries, requests, i) <= even_share(queries, requests, 0));
        assert(queries / requests >= 1) by (nonlinear_arith)
            requires
                1 <= requests <= queries,
        ;
    }
    assert(requests * context == context * requests && 0 <= context * requests <= u64::MAX)
        by (nonlinear_arith)
        requires
            0 <= context <= u32::MAX,
            1 <= requests <= 64,
    ;
    let at = input.position();
    assert(at[0] == whole(cell[0] as int));
    assert(at[1].numerator == cell[1] * at[1].denominator);
    assert(at[2] == whole(cell[2] as int));
    stands_on_whole_units(at, cell, seq![1, 1, 1]);
}

/// Requests of one context have that context as their mean, however many there are and
/// whatever rows each of them queries.
pub proof fn equal_contexts_are_their_mean(
    input: DeepseekV4IndexerPrefillKernelInput,
    context: u32,
)
    requires
        input.well_shaped(),
        forall|i: int|
            0 <= i < input.query_context_pairs@.len() ==> (
            #[trigger] input.query_context_pairs@[i]).1 == context,
    ensures
        input.position()[1].numerator == context * input.position()[1].denominator,
        input.position()[1].denominator > 0,
{
    let pairs = input.query_context_pairs@;
    context_of_equals(pairs, context);
    assert(0 <= context * pairs.len() <= u64::MAX) by (nonlinear_arith)
        requires
            0 <= context <= u32::MAX,
            0 <= pairs.len() <= 64,
    ;
}

proof fn context_of_equals(pairs: Seq<(u32, u32)>, context: u32)
    requires
        forall|i: int| 0 <= i < pairs.len() ==> (#[trigger] pairs[i]).1 == context,
    ensures
        total_context(pairs) == context * pairs.len(),
    decreases pairs.len(),
{
    if pairs.len() > 0 {
        context_of_equals(pairs.drop_last(), context);
        assert(context * (pairs.len() - 1) + context == context * pairs.len()) by (nonlinear_arith);
    }
}

/// A cell that is left out is the place of no launch: whatever batch has a cell's rows,
/// requests and mean context, the cell has an even batch too.
pub proof fn every_launch_has_its_cell(cell: Seq<u32>, input: DeepseekV4IndexerPrefillKernelInput)
    requires
        cell.len() == 3,
        input.well_shaped(),
        stands_at(input.position(), cell, seq![1, 1, 1]),
    ensures
        canonical_batch(cell[0] as int, cell[1] as int, cell[2] as int) is Some,
{
    let pairs = input.query_context_pairs@;
    requests_rows_and_context_ascend(pairs);
    assert(pairs.len() * u32::MAX <= u64::MAX);
    let at = input.position();
    standing_is_value(at, cell, seq![1, 1, 1], 0);
    standing_is_value(at, cell, seq![1, 1, 1], 1);
    standing_is_value(at, cell, seq![1, 1, 1], 2);
    let requests = pairs.len() as int;
    let context = cell[1] as int;
    let length = at[1].denominator as int;
    assert(context * length == requests * context) by (nonlinear_arith)
        requires
            length == requests,
    ;
    even_share_fits(total_queries(pairs), requests, context);
}

pub struct DeepseekV4IndexerMqaLogitsPrefillSpec;

impl KernelSpec for DeepseekV4IndexerMqaLogitsPrefillSpec {
    type Config = DeepseekV4IndexerMqaLogitsPrefillKernelConfig;

    type Input = DeepseekV4IndexerPrefillKernelInput;

    const KIND: KernelKind = "deepseek_v4_indexer_mqa_logits_prefill";

    open spec fn admits(config: DeepseekV4IndexerMqaLogitsPrefillKernelConfig) -> bool {
        config.max_num_batched_tokens == 8192 && config.max_logits_bytes == 536870912
            && config.compress_ratio == 4
    }

    open spec fn axes(
        config: DeepseekV4IndexerMqaLogitsPrefillKernelConfig,
        tokens: Seq<u32>,
    ) -> Seq<Seq<u32>> {
        prefill_axes(config.max_model_len as int)
    }

    open spec fn units(axes: Seq<Seq<u32>>) -> Seq<u32> {
        whole_units(axes)
    }

    open spec fn table(backend: Seq<char>) -> CacheKind {
        CacheKind::Cache3DLinear
    }

    open spec fn masks() -> bool {
        true
    }

    open spec fn judges(
        config: DeepseekV4IndexerMqaLogitsPrefillKernelConfig,
        cell: Seq<u32>,
    ) -> bool {
        cell.len() == 3
    }

    open spec fn infeasible(
        config: DeepseekV4IndexerMqaLogitsPrefillKernelConfig,
        cell: Seq<u32>,
    ) -> bool {
        canonical_batch(cell[0] as int, cell[1] as int, cell[2] as int) is None
    }

    open spec fn table_position(
        config: DeepseekV4IndexerMqaLogitsPrefillKernelConfig,
        input: DeepseekV4IndexerPrefillKernelInput,
    ) -> Seq<Ratio> {
        input.position()
    }

    open spec fn answers(
        config: DeepseekV4IndexerMqaLogitsPrefillKernelConfig,
        input: DeepseekV4IndexerPrefillKernelInput,
    ) -> bool {
        input.well_shaped()
    }

    fn profile_kind() -> (r: KernelKind) {
        Self::KIND
    }

    fn can_sweep(config: &DeepseekV4IndexerMqaLogitsPrefillKernelConfig) -> (r: bool) {
        config.max_num_batched_tokens == 8192 && config.max_logits_bytes == 536870912
            && config.compress_ratio == 4
    }

    fn sweep_grid(
        config: &DeepseekV4IndexerMqaLogitsPrefillKernelConfig,
        tokens: &Vec<u32>,
    ) -> (r: SweepGrid) {
        sweep_grid(config.max_model_len)
    }

    fn cache_kind(backend: &str) -> (r: CacheKind) {
        CacheKind::Cache3DLinear
    }

    fn has_mask() -> (r: bool) {
        true
    }

    fn is_infeasible(
        config: &DeepseekV4IndexerMqaLogitsPrefillKernelConfig,
        cell: &Vec<u32>,
    ) -> (r: bool) {
        canonical_pairs(cell[0], cell[1], cell[2]).is_none()
    }

    fn can_answer(
        config: &DeepseekV4IndexerMqaLogitsPrefillKernelConfig,
        input: &DeepseekV4IndexerPrefillKernelInput,
    ) -> (r: bool) {
        input.is_well_shaped()
    }

    fn cache_coords(
        config: &DeepseekV4IndexerMqaLogitsPrefillKernelConfig,
        input: &DeepseekV4IndexerPrefillKernelInput,
    ) -> (r: Vec<Ratio>) {
        input.coords()
    }

    proof fn sweep_fits_table(
        config: DeepseekV4IndexerMqaLogitsPrefillKernelConfig,
        tokens: Seq<u32>,
        backend: Seq<char>,
    ) {
    }

    proof fn sweep_is_judged(
        config: DeepseekV4IndexerMqaLogitsPrefillKernelConfig,
        tokens: Seq<u32>,
        index: nat,
    ) {
        cell_on_axes(Self::axes(config, tokens), index);
    }

    proof fn queries_fit_table(
        config: DeepseekV4IndexerMqaLogitsPrefillKernelConfig,
        input: DeepseekV4IndexerPrefillKernelInput,
        backend: Seq<char>,
    ) {
    }
}

impl CellPayloads for DeepseekV4IndexerMqaLogitsPrefillSpec {
    open spec fn covers(
        config: DeepseekV4IndexerMqaLogitsPrefillKernelConfig,
        cell: Seq<u32>,
    ) -> bool {
        cell.len() == 3
    }

    open spec fn enumerates(config: DeepseekV4IndexerMqaLogitsPrefillKernelConfig) -> bool {
        true
    }

    open spec fn fields(
        config: DeepseekV4IndexerMqaLogitsPrefillKernelConfig,
        cell: Seq<u32>,
        backend: Seq<char>,
    ) -> Map<Seq<char>, WireValue> {
        Map::<Seq<char>, WireValue>::empty()
            .insert("query_context_pairs"@, WireValue::Pairs(enumerated_batch(cell)))
            .insert("max_model_len"@, WireValue::Number(config.max_model_len as nat))
            .insert(
                "max_num_batched_tokens"@,
                WireValue::Number(config.max_num_batched_tokens as nat),
            )
            .insert("max_logits_bytes"@, WireValue::Number(config.max_logits_bytes as nat))
            .insert("compress_ratio"@, WireValue::Number(config.compress_ratio as nat))
            .insert("num_heads"@, WireValue::Number(config.num_heads@.fold() as nat))
            .insert("head_dim"@, WireValue::Number(config.head_dim@.fold() as nat))
            .insert("q_dtype"@, WireValue::Text(dtype_text(config.q_dtype)))
            .insert("k_dtype"@, WireValue::Text(dtype_text(config.k_dtype)))
            .insert("k_scale_dtype"@, WireValue::Text(dtype_text(config.k_scale_dtype)))
            .insert("weight_dtype"@, WireValue::Text(dtype_text(config.weight_dtype)))
            .insert("output_dtype"@, WireValue::Text(dtype_text(config.output_dtype)))
            .insert("clean_logits"@, WireValue::Flag(config.clean_logits))
            .insert("backend"@, WireValue::Text(backend))
    }

    fn can_enumerate(config: &DeepseekV4IndexerMqaLogitsPrefillKernelConfig) -> (r: bool) {
        true
    }

    fn cell_payload(
        config: &DeepseekV4IndexerMqaLogitsPrefillKernelConfig,
        cell: &Vec<u32>,
        backend: &str,
    ) -> (r: ArgsPayload) {
        ArgsPayload::new()
            .with("query_context_pairs", PayloadValue::Pairs(enumerated_pairs(cell)))
            .with("max_model_len", number_value(config.max_model_len))
            .with("max_num_batched_tokens", number_value(config.max_num_batched_tokens))
            .with("max_logits_bytes", PayloadValue::Number(config.max_logits_bytes))
            .with("compress_ratio", number_value(config.compress_ratio))
            .with("num_heads", number_value(config.num_heads.get()))
            .with("head_dim", number_value(config.head_dim.get()))
            .with("q_dtype", text_value(config.q_dtype.as_str()))
            .with("k_dtype", text_value(config.k_dtype.as_str()))
            .with("k_scale_dtype", text_value(config.k_scale_dtype.as_str()))
            .with("weight_dtype", text_value(config.weight_dtype.as_str()))
            .with("output_dtype", text_value(config.output_dtype.as_str()))
            .with("clean_logits", flag_value(config.clean_logits))
            .with("backend", text_value(backend))
    }

    proof fn sweep_is_covered(
        config: DeepseekV4IndexerMqaLogitsPrefillKernelConfig,
        tokens: Seq<u32>,
        index: nat,
    ) {
        cell_on_axes(Self::axes(config, tokens), index);
    }

    proof fn fields_name_backend(
        config: DeepseekV4IndexerMqaLogitsPrefillKernelConfig,
        cell: Seq<u32>,
        backend: Seq<char>,
    ) {
    }

    open spec fn describes(
        config: DeepseekV4IndexerMqaLogitsPrefillKernelConfig,
        fields: Map<Seq<char>, WireValue>,
        input: DeepseekV4IndexerPrefillKernelInput,
    ) -> bool {
        pairs_at(fields, "query_context_pairs"@) == input.query_context_pairs@
    }

    open spec fn occurs(
        config: DeepseekV4IndexerMqaLogitsPrefillKernelConfig,
        cell: Seq<u32>,
    ) -> bool {
        true
    }

    open spec fn kept_back() -> Set<Seq<char>> {
        set!["backends"@, "gpu_name"@]
    }

    proof fn payload_stands_at_its_cell(
        config: DeepseekV4IndexerMqaLogitsPrefillKernelConfig,
        tokens: Seq<u32>,
        index: nat,
        backend: Seq<char>,
        input: DeepseekV4IndexerPrefillKernelInput,
    ) {
        cell_on_axes(Self::axes(config, tokens), index);
        reveal_strlit("query_context_pairs");
        reveal_strlit("max_model_len");
        reveal_strlit("max_num_batched_tokens");
        reveal_strlit("max_logits_bytes");
        reveal_strlit("compress_ratio");
        reveal_strlit("num_heads");
        reveal_strlit("head_dim");
        reveal_strlit("q_dtype");
        reveal_strlit("k_dtype");
        reveal_strlit("k_scale_dtype");
        reveal_strlit("weight_dtype");
        reveal_strlit("output_dtype");
        reveal_strlit("clean_logits");
        reveal_strlit("backend");
        assert("query_context_pairs"@.len() == 19);
        assert("max_model_len"@.len() == 13);
        assert("max_num_batched_tokens"@.len() == 22);
        assert("max_logits_bytes"@.len() == 16);
        assert("compress_ratio"@.len() == 14);
        assert("num_heads"@.len() == 9);
        assert("head_dim"@.len() == 8);
        assert("q_dtype"@.len() == 7);
        assert("k_dtype"@.len() == 7);
        assert("k_scale_dtype"@.len() == 13);
        assert("weight_dtype"@.len() == 12);
        assert("output_dtype"@.len() == 12);
        assert("clean_logits"@.len() == 12);
        assert("backend"@.len() == 7);
        let cell = cell_at(Self::axes(config, tokens), index);
        assert(is_prefill_cell(config.max_model_len as int, cell)) by {
            assert forall|i: int| 0 <= i < 3 implies prefill_axes(
                config.max_model_len as int,
            )[i].contains(#[trigger] cell[i]) by {}
        }
        canonical_batch_projects_back(config.max_model_len as int, cell, input);
        assert(Self::units(Self::axes(config, tokens)) =~= seq![1u32, 1, 1]);
    }

    proof fn payload_carries_config(
        config: DeepseekV4IndexerMqaLogitsPrefillKernelConfig,
        cell: Seq<u32>,
        backend: Seq<char>,
        i: int,
    ) {
        reveal_strlit("max_model_len");
        reveal_strlit("max_num_batched_tokens");
        reveal_strlit("max_logits_bytes");
        reveal_strlit("compress_ratio");
        reveal_strlit("num_heads");
        reveal_strlit("head_dim");
        reveal_strlit("q_dtype");
        reveal_strlit("k_dtype");
        reveal_strlit("k_scale_dtype");
        reveal_strlit("weight_dtype");
        reveal_strlit("output_dtype");
        reveal_strlit("clean_logits");
        reveal_strlit("backend");
        assert("max_model_len"@.len() == 13 && "max_model_len"@[0] == 'm');
        assert("max_num_batched_tokens"@.len() == 22);
        assert("max_logits_bytes"@.len() == 16);
        assert("compress_ratio"@.len() == 14);
        assert("num_heads"@.len() == 9);
        assert("head_dim"@.len() == 8);
        assert("q_dtype"@.len() == 7 && "q_dtype"@[0] == 'q');
        assert("k_dtype"@.len() == 7 && "k_dtype"@[0] == 'k');
        assert("k_scale_dtype"@.len() == 13 && "k_scale_dtype"@[0] == 'k');
        assert("weight_dtype"@.len() == 12 && "weight_dtype"@[0] == 'w');
        assert("output_dtype"@.len() == 12 && "output_dtype"@[0] == 'o');
        assert("clean_logits"@.len() == 12 && "clean_logits"@[0] == 'c');
        assert("backend"@.len() == 7 && "backend"@[0] == 'b');
        let fields = Self::fields(config, cell, backend);
        let terms = config.description();
        assert(carries(fields, terms[2]));
        assert(carries(fields, terms[3]));
        assert(carries(fields, terms[4]));
        assert(carries(fields, terms[5]));
        assert(carries(fields, terms[6]));
        assert(carries(fields, terms[7]));
        assert(carries(fields, terms[8]));
        assert(carries(fields, terms[9]));
        assert(carries(fields, terms[10]));
        assert(carries(fields, terms[11]));
        assert(carries(fields, terms[12]));
        assert(carries(fields, terms[13]));
    }

    proof fn described_alike_is_profiled_alike(
        a: DeepseekV4IndexerMqaLogitsPrefillKernelConfig,
        b: DeepseekV4IndexerMqaLogitsPrefillKernelConfig,
        tokens: Seq<u32>,
        cell: Seq<u32>,
        backend: Seq<char>,
    ) {
        let (x, y) = (a.description(), b.description());
        assert(x[0] == y[0]);
        assert(x[1] == y[1]);
        assert(x[2] == y[2]);
        assert(x[3] == y[3]);
        assert(x[4] == y[4]);
        assert(x[5] == y[5]);
        assert(x[6] == y[6]);
        assert(x[7] == y[7]);
        assert(x[8] == y[8]);
        assert(x[9] == y[9]);
        assert(x[10] == y[10]);
        assert(x[11] == y[11]);
        assert(x[12] == y[12]);
        assert(x[13] == y[13]);
    }
}

/// Two batches taken together have the rows of both, and a mean context that weighs each
/// by its requests.
pub proof fn joined_batches_add_up(
    a: DeepseekV4IndexerPrefillKernelInput,
    b: DeepseekV4IndexerPrefillKernelInput,
    both: DeepseekV4IndexerPrefillKernelInput,
)
    requires
        a.well_shaped(),
        b.well_shaped(),
        both.well_shaped(),
        both.query_context_pairs@ == a.query_context_pairs@ + b.query_context_pairs@,
    ensures
        both.position()[0].numerator == a.position()[0].numerator + b.position()[0].numerator,
        both.position()[1].numerator == a.position()[1].numerator + b.position()[1].numerator,
        both.position()[1].denominator == a.position()[1].denominator
            + b.position()[1].denominator,
{
    totals_of_joined(a.query_context_pairs@, b.query_context_pairs@);
    requests_rows_and_context_ascend(a.query_context_pairs@);
    requests_rows_and_context_ascend(b.query_context_pairs@);
    requests_rows_and_context_ascend(both.query_context_pairs@);
}

/// The kernel computes in the precision that is described as `q_dtype` and keeps its cache
/// in the precision that is described as `k_dtype`.
pub proof fn precisions_are_described(config: DeepseekV4IndexerMqaLogitsPrefillKernelConfig)
    ensures
        config.compute() matches Some(precision) && config.description()[8] == (
            "q_dtype"@,
            ConfigTerm::Precision(precision),
        ),
        config.kv() matches Some(precision) && config.description()[9] == (
            "k_dtype"@,
            ConfigTerm::Precision(precision),
        ),
{
}

} // verus!
