//! Prefill top-k selection of the indexer over one complete batch of requests.
//!
//! The sweep, mask and batches are those of the indexer's prefill logits.

use crate::bridge::payload::{
    dtype_text, number_value, text_value, ArgsPayload, DType, KernelKind, PayloadValue, WireValue,
};
use crate::cache::CacheKind;
use crate::kernels::config::{
    bits_of, field, fields_view, names_of, number_of, precision_of, text_of, ConfigField,
    ConfigTerm, KernelConfig,
};
use crate::kernels::deepseek_v4_indexer_mqa_logits_prefill::{
    canonical_batch, canonical_batch_projects_back, canonical_pairs, enumerated_batch,
    enumerated_pairs, is_prefill_cell, prefill_axes, sweep_grid,
    DeepseekV4IndexerPrefillKernelInput,
};
use crate::kernels::engine::{carries, pairs_at, whole_units, CellPayloads, KernelSpec, SweepCoords};
use crate::sweep::{cell_at, cell_on_axes, Ratio, SweepGrid};
use vstd::prelude::*;

verus! {

#[derive(Clone, Debug, PartialEq, Eq, Hash)]
pub struct DeepseekV4IndexerTopkPrefillKernelConfig {
    pub backends: Vec<&'static str>,
    pub gpu_name: String,
    pub max_model_len: u32,
    pub max_num_batched_tokens: u32,
    pub max_logits_bytes: u64,
    pub compress_ratio: u32,
    pub top_k: u32,
    pub logits_dtype: DType,
    pub index_dtype: String,
}

impl KernelConfig for DeepseekV4IndexerTopkPrefillKernelConfig {
    const BACKENDS_FIELD: &'static str = "DeepseekV4IndexerTopkPrefillKernelConfig.backends";

    open spec fn candidates(&self) -> Seq<&'static str> {
        self.backends@
    }

    open spec fn gpu(&self) -> Seq<char> {
        self.gpu_name@
    }

    open spec fn compute(&self) -> Option<DType> {
        Some(self.logits_dtype)
    }

    open spec fn kv(&self) -> Option<DType> {
        None
    }

    open spec fn description(&self) -> Seq<(Seq<char>, ConfigTerm)> {
        seq![
            ("backends"@, ConfigTerm::Names(self.backends@)),
            ("gpu_name"@, ConfigTerm::Text(self.gpu_name@)),
            ("max_model_len"@, ConfigTerm::Number(self.max_model_len as nat)),
            ("max_num_batched_tokens"@, ConfigTerm::Number(self.max_num_batched_tokens as nat)),
            ("max_logits_bytes"@, ConfigTerm::Number(self.max_logits_bytes as nat)),
            ("compress_ratio"@, ConfigTerm::Number(self.compress_ratio as nat)),
            ("top_k"@, ConfigTerm::Number(self.top_k as nat)),
            ("logits_dtype"@, ConfigTerm::Precision(self.logits_dtype)),
            ("index_dtype"@, ConfigTerm::Text(self.index_dtype@)),
        ]
    }

    fn backends(&self) -> (r: &Vec<&'static str>) {
        &self.backends
    }

    fn gpu_name(&self) -> (r: &str) {
        self.gpu_name.as_str()
    }

    fn compute_dtype(&self) -> (r: Option<DType>) {
        Some(self.logits_dtype)
    }

    fn kv_dtype(&self) -> (r: Option<DType>) {
        None
    }

    fn describe_config(&self) -> (r: Vec<ConfigField>) {
        let r: Vec<ConfigField> = vec![
            field("backends", names_of(&self.backends)),
            field("gpu_name", text_of(self.gpu_name.as_str())),
            field("max_model_len", number_of(self.max_model_len)),
            field("max_num_batched_tokens", number_of(self.max_num_batched_tokens)),
            field("max_logits_bytes", bits_of(self.max_logits_bytes)),
            field("compress_ratio", number_of(self.compress_ratio)),
            field("top_k", number_of(self.top_k)),
            field("logits_dtype", precision_of(self.logits_dtype)),
            field("index_dtype", text_of(self.index_dtype.as_str())),
        ];
        assert(fields_view(r@) =~= self.description());
        r
    }
}

pub struct DeepseekV4IndexerTopkPrefillSpec;

impl KernelSpec for DeepseekV4IndexerTopkPrefillSpec {
    type Config = DeepseekV4IndexerTopkPrefillKernelConfig;

    type Input = DeepseekV4IndexerPrefillKernelInput;

    const KIND: KernelKind = "deepseek_v4_indexer_topk_prefill";

    open spec fn admits(config: DeepseekV4IndexerTopkPrefillKernelConfig) -> bool {
        config.max_num_batched_tokens == 8192 && config.max_logits_bytes == 536870912
            && config.compress_ratio == 4
    }

    open spec fn axes(
        config: DeepseekV4IndexerTopkPrefillKernelConfig,
        tokens: Seq<u32>,
    ) -> Seq<Seq<u32>> {
        prefill_axes(config.max_model_len as int)
    }

    open spec fn units(axes: Seq<Seq<u32>>) -> Seq<u32> {
        whole_units(axes)
    }

    open spec fn table(backend: Seq<char>) -> CacheKind {
        CacheKind::Cache3DLinear
    }

    open spec fn masks() -> bool {
        true
    }

    open spec fn judges(config: DeepseekV4IndexerTopkPrefillKernelConfig, cell: Seq<u32>) -> bool {
        cell.len() == 3
    }

    open spec fn infeasible(
        config: DeepseekV4IndexerTopkPrefillKernelConfig,
        cell: Seq<u32>,
    ) -> bool {
        canonical_batch(cell[0] as int, cell[1] as int, cell[2] as int) is None
    }

    open spec fn table_position(
        config: DeepseekV4IndexerTopkPrefillKernelConfig,
        input: DeepseekV4IndexerPrefillKernelInput,
    ) -> Seq<Ratio> {
        input.position()
    }

    open spec fn answers(
        config: DeepseekV4IndexerTopkPrefillKernelConfig,
        input: DeepseekV4IndexerPrefillKernelInput,
    ) -> bool {
        input.well_shaped()
    }

    fn profile_kind() -> (r: KernelKind) {
        Self::KIND
    }

    fn can_sweep(config: &DeepseekV4IndexerTopkPrefillKernelConfig) -> (r: bool) {
        config.max_num_batched_tokens == 8192 && config.max_logits_bytes == 536870912
            && config.compress_ratio == 4
    }

    fn sweep_grid(
        config: &DeepseekV4IndexerTopkPrefillKernelConfig,
        tokens: &Vec<u32>,
    ) -> (r: SweepGrid) {
        sweep_grid(config.max_model_len)
    }

    fn cache_kind(backend: &str) -> (r: CacheKind) {
        CacheKind::Cache3DLinear
    }

    fn has_mask() -> (r: bool) {
        true
    }

    fn is_infeasible(
        config: &DeepseekV4IndexerTopkPrefillKernelConfig,
        cell: &Vec<u32>,
    ) -> (r: bool) {
        canonical_pairs(cell[0], cell[1], cell[2]).is_none()
    }

    fn can_answer(
        config: &DeepseekV4IndexerTopkPrefillKernelConfig,
        input: &DeepseekV4IndexerPrefillKernelInput,
    ) -> (r: bool) {
        input.is_well_shaped()
    }

    fn cache_coords(
        config: &DeepseekV4IndexerTopkPrefillKernelConfig,
        input: &DeepseekV4IndexerPrefillKernelInput,
    ) -> (r: Vec<Ratio>) {
        input.coords()
    }

    proof fn sweep_fits_table(
        config: DeepseekV4IndexerTopkPrefillKernelConfig,
        tokens: Seq<u32>,
        backend: Seq<char>,
    ) {
    }

    proof fn sweep_is_judged(
        config: DeepseekV4IndexerTopkPrefillKernelConfig,
        tokens: Seq<u32>,
        index: nat,
    ) {
        cell_on_axes(Self::axes(config, tokens), index);
    }

    proof fn queries_fit_table(
        config: DeepseekV4IndexerTopkPrefillKernelConfig,
        input: DeepseekV4IndexerPrefillKernelInput,
        backend: Seq<char>,
    ) {
    }
}

impl CellPayloads for DeepseekV4IndexerTopkPrefillSpec {
    open spec fn covers(config: DeepseekV4IndexerTopkPrefillKernelConfig, cell: Seq<u32>) -> bool {
        cell.len() == 3
    }

    open spec fn enumerates(config: DeepseekV4IndexerTopkPrefillKernelConfig) -> bool {
        true
    }

    open spec fn fields(
        config: DeepseekV4IndexerTopkPrefillKernelConfig,
        cell: Seq<u32>,
        backend: Seq<char>,
    ) -> Map<Seq<char>, WireValue> {
        Map::<Seq<char>, WireValue>::empty()
            .insert("query_context_pairs"@, WireValue::Pairs(enumerated_batch(cell)))
            .insert("max_model_len"@, WireValue::Number(config.max_model_len as nat))
            .insert(
                "max_num_batched_tokens"@,
                WireValue::Number(config.max_num_batched_tokens as nat),
            )
            .insert("max_logits_bytes"@, WireValue::Number(config.max_logits_bytes as nat))
            .insert("compress_ratio"@, WireValue::Number(config.compress_ratio as nat))
            .insert("top_k"@, WireValue::Number(config.top_k as nat))
            .insert("logits_dtype"@, WireValue::Text(dtype_text(config.logits_dtype)))
            .insert("index_dtype"@, WireValue::Text(config.index_dtype@))
            .insert("backend"@, WireValue::Text(backend))
    }

    fn can_enumerate(config: &DeepseekV4IndexerTopkPrefillKernelConfig) -> (r: bool) {
        true
    }

    fn cell_payload(
        config: &DeepseekV4IndexerTopkPrefillKernelConfig,
        cell: &Vec<u32>,
        backend: &str,
    ) -> (r: ArgsPayload) {
        ArgsPayload::new()
            .with("query_context_pairs", PayloadValue::Pairs(enumerated_pairs(cell)))
            .with("max_model_len", number_value(config.max_model_len))
            .with("max_num_batched_tokens", number_value(config.max_num_batched_tokens))
            .with("max_logits_bytes", PayloadValue::Number(config.max_logits_bytes))
            .with("compress_ratio", number_value(config.compress_ratio))
            .with("top_k", number_value(config.top_k))
            .with("logits_dtype", text_value(config.logits_dtype.as_str()))
            .with("index_dtype", text_value(config.index_dtype.as_str()))
            .with("backend", text_value(backend))
    }

    proof fn sweep_is_covered(
        config: DeepseekV4IndexerTopkPrefillKernelConfig,
        tokens: Seq<u32>,
        index: nat,
    ) {
        cell_on_axes(Self::axes(config, tokens), index);
    }

    proof fn fields_name_backend(
        config: DeepseekV4IndexerTopkPrefillKernelConfig,
        cell: Seq<u32>,
        backend: Seq<char>,
    ) {
    }

    open spec fn describes(
        config: DeepseekV4IndexerTopkPrefillKernelConfig,
        fields: Map<Seq<char>, WireValue>,
        input: DeepseekV4IndexerPrefillKernelInput,
    ) -> bool {
        pairs_at(fields, "query_context_pairs"@) == input.query_context_pairs@
    }

    open spec fn occurs(config: DeepseekV4IndexerTopkPrefillKernelConfig, cell: Seq<u32>) -> bool {
        true
    }

    open spec fn kept_back() -> Set<Seq<char>> {
        set!["backends"@, "gpu_name"@]
    }

    proof fn payload_stands_at_its_cell(
        config: DeepseekV4IndexerTopkPrefillKernelConfig,
        tokens: Seq<u32>,
        index: nat,
        backend: Seq<char>,
        input: DeepseekV4IndexerPrefillKernelInput,
    ) {
        cell_on_axes(Self::axes(config, tokens), index);
        reveal_strlit("query_context_pairs");
        reveal_strlit("max_model_len");
        reveal_strlit("max_num_batched_tokens");
        reveal_strlit("max_logits_bytes");
        reveal_strlit("compress_ratio");
        reveal_strlit("top_k");
        reveal_strlit("logits_dtype");
        reveal_strlit("index_dtype");
        reveal_strlit("backend");
        assert("query_context_pairs"@.len() == 19);
        assert("max_model_len"@.len() == 13);
        assert("max_num_batched_tokens"@.len() == 22);
        assert("max_logits_bytes"@.len() == 16);
        assert("compress_ratio"@.len() == 14);
        assert("top_k"@.len() == 5);
        assert("logits_dtype"@.len() == 12);
        assert("index_dtype"@.len() == 11);
        assert("backend"@.len() == 7);
        let cell = cell_at(Self::axes(config, tokens), index);
        assert(is_prefill_cell(config.max_model_len as int, cell)) by {
            assert forall|i: int| 0 <= i < 3 implies prefill_axes(
                config.max_model_len as int,
            )[i].contains(#[trigger] cell[i]) by {}
        }
        canonical_batch_projects_back(config.max_model_len as int, cell, input);
        assert(Self::units(Self::axes(config, tokens)) =~= seq![1u32, 1, 1]);
    }

    proof fn payload_carries_config(
        config: DeepseekV4IndexerTopkPrefillKernelConfig,
        cell: Seq<u32>,
        backend: Seq<char>,
        i: int,
    ) {
        reveal_strlit("max_model_len");
        reveal_strlit("max_num_batched_tokens");
        reveal_strlit("max_logits_bytes");
        reveal_strlit("compress_ratio");
        reveal_strlit("top_k");
        reveal_strlit("logits_dtype");
        reveal_strlit("index_dtype");
        reveal_strlit("backend");
        assert("max_model_len"@.len() == 13);
        assert("max_num_batched_tokens"@.len() == 22);
        assert("max_logits_bytes"@.len() == 16);
        assert("compress_ratio"@.len() == 14);
        assert("top_k"@.len() == 5);
        assert("logits_dtype"@.len() == 12);
        assert("index_dtype"@.len() == 11);
        assert("backend"@.len() == 7);
        let fields = Self::fields(config, cell, backend);
        let terms = config.description();
        assert(carries(fields, terms[2]));
        assert(carries(fields, terms[3]));
        assert(carries(fields, terms[4]));
        assert(carries(fields, terms[5]));
        assert(carries(fields, terms[6]));
        assert(carries(fields, terms[7]));
        assert(carries(fields, terms[8]));
    }

    proof fn described_alike_is_profiled_alike(
        a: DeepseekV4IndexerTopkPrefillKernelConfig,
        b: DeepseekV4IndexerTopkPrefillKernelConfig,
        tokens: Seq<u32>,
        cell: Seq<u32>,
        backend: Seq<char>,
    ) {
        let (x, y) = (a.description(), b.description());
        assert(x[0] == y[0]);
        assert(x[1] == y[1]);
        assert(x[2] == y[2]);
        assert(x[3] == y[3]);
        assert(x[4] == y[4]);
        assert(x[5] == y[5]);
        assert(x[6] == y[6]);
        assert(x[7] == y[7]);
        assert(x[8] == y[8]);
    }
}

/// The kernel computes in the precision that is described as `logits_dtype` and names no
/// precision that it keeps its cache in.
pub proof fn precisions_are_described(config: DeepseekV4IndexerTopkPrefillKernelConfig)
    ensures
        config.compute() matches Some(precision) && config.description()[7] == (
            "logits_dtype"@,
            ConfigTerm::Precision(precision),
        ),
        config.kv() is None,
{
}

} // verus!
