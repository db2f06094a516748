//! The ranges that sweeps cover, how densely, and how their tables go on past them.

use crate::cache::{CacheKind, Extrapolation};
use crate::kernels::all_reduce::{AllReduceKernelConfig, AllReduceSpec};
use crate::kernels::batched_gemm::{BatchedGemmKernelConfig, BatchedGemmSpec};
use crate::kernels::clamped_swiglu::{ClampedSwigluKernelConfig, ClampedSwigluSpec};
use crate::kernels::deepseek_v4_fused_inv_rope_fp8_quant::{
    DeepseekV4FusedInvRopeFp8QuantKernelConfig, DeepseekV4FusedInvRopeFp8QuantSpec,
};
use crate::kernels::deepseek_v4_fused_q_kv_rmsnorm::{
    DeepseekV4FusedQKvRmsnormKernelConfig, DeepseekV4FusedQKvRmsnormSpec,
};
use crate::kernels::deepseek_v4_indexer_mqa_logits_prefill::{
    DeepseekV4IndexerMqaLogitsPrefillKernelConfig, DeepseekV4IndexerMqaLogitsPrefillSpec,
};
use crate::kernels::deepseek_v4_indexer_q_rope_quant::{
    DeepseekV4IndexerQRopeQuantKernelConfig, DeepseekV4IndexerQRopeQuantSpec,
};
use crate::kernels::deepseek_v4_indexer_topk_decode::{
    DeepseekV4IndexerTopkDecodeKernelConfig, DeepseekV4IndexerTopkDecodeSpec,
};
use crate::kernels::deepseek_v4_indexer_topk_prefill::{
    DeepseekV4IndexerTopkPrefillKernelConfig, DeepseekV4IndexerTopkPrefillSpec,
};
use crate::kernels::deepseek_v4_packed_cache_gather::{
    selected_points, DeepseekV4PackedCacheGatherKernelConfig, DeepseekV4PackedCacheGatherSpec,
};
use crate::kernels::deepseek_v4_qnorm_rope_kv_insert::{
    DeepseekV4QnormRopeKvInsertKernelConfig, DeepseekV4QnormRopeKvInsertSpec,
};
use crate::kernels::deepseek_v4_sparse_attn_compress_store::{
    DeepseekV4SparseAttnCompressStoreKernelConfig, DeepseekV4SparseAttnCompressStoreSpec,
};
use crate::kernels::deepseek_v4_sparse_mla_decode::{
    DeepseekV4SparseMlaDecodeKernelConfig, DeepseekV4SparseMlaDecodeSpec,
};
use crate::kernels::deepseek_v4_sparse_mla_prefill::{
    DeepseekV4SparseMlaPrefillKernelConfig, DeepseekV4SparseMlaPrefillSpec,
};
use crate::kernels::dsa_index_cache_append::{
    DsaIndexCacheAppendKernelConfig, DsaIndexCacheAppendSpec,
};
use crate::kernels::dsa_indexer_q_rope_quant::{
    DsaIndexerQRopeQuantKernelConfig, DsaIndexerQRopeQuantSpec,
};
use crate::kernels::dsa_mqa_logits_prefill::{
    DsaMqaLogitsPrefillKernelConfig, DsaMqaLogitsPrefillSpec,
};
use crate::kernels::dsa_paged_mqa_logits_decode::{
    DsaPagedMqaLogitsDecodeKernelConfig, DsaPagedMqaLogitsDecodeSpec,
};
use crate::kernels::dsa_persistent_topk_decode::{
    DsaPersistentTopkDecodeKernelConfig, DsaPersistentTopkDecodeSpec,
};
use crate::kernels::dsa_sparse_index_remap::{
    DsaSparseIndexRemapKernelConfig, DsaSparseIndexRemapSpec,
};
use crate::kernels::dsa_sparse_mla_attention::{
    causal_cache_points, causal_query_points, pair_cache_points, pair_query_points,
    pooled_base_points, pooled_query_points, uniform_cache_points, uniform_query_points,
};
use crate::kernels::dsa_sparse_mla_prefill::{
    DsaSparseMlaPrefillKernelConfig, DsaSparseMlaPrefillSpec,
};
use crate::kernels::dsa_topk_prefill::{DsaTopkPrefillKernelConfig, DsaTopkPrefillSpec};
use crate::kernels::engine::KernelSpec;
use crate::kernels::flashinfer_attn_decode::{
    FlashinferAttnDecodeKernelConfig, FlashinferAttnDecodeSpec,
};
use crate::kernels::flashinfer_attn_prefill::{
    FlashinferAttnPrefillKernelConfig, FlashinferAttnPrefillSpec,
};
use crate::kernels::fp8_block_quant::{Fp8BlockQuantKernelConfig, Fp8BlockQuantSpec};
use crate::kernels::fp8_blockscale_grouped_gemm::{
    Fp8BlockscaleGroupedGemmKernelConfig, Fp8BlockscaleGroupedGemmSpec,
};
use crate::kernels::fp8_per_token_group_quant::{
    Fp8PerTokenGroupQuantKernelConfig, Fp8PerTokenGroupQuantSpec,
};
use crate::kernels::gdn_causal_conv_decode::{
    GdnCausalConvDecodeKernelConfig, GdnCausalConvDecodeSpec,
};
use crate::kernels::gdn_causal_conv_prefill::{
    GdnCausalConvPrefillKernelConfig, GdnCausalConvPrefillSpec,
};
use crate::kernels::gdn_chunk_delta_rule::{GdnChunkDeltaRuleKernelConfig, GdnChunkDeltaRuleSpec};
use crate::sweep::{
    ascending_of_holds, at_most, at_most_keeps, at_most_of_all, chained, chained_holds, pow2_points,
    pow2_points_double, pow2_points_ends, two_to,
};
use vstd::prelude::*;

verus! {

/// Whether an axis runs from one point to another, ascending, and never by more than a
/// factor at a time; from zero it goes on to one.
pub open spec fn spans(axis: Seq<u32>, low: int, high: int, factor: int) -> bool {
    &&& axis.len() > 0
    &&& axis[0] == low
    &&& axis.last() == high
    &&& forall|i: int|
        0 < i < axis.len() ==> #[trigger] axis[i] > axis[i - 1] && (axis[i] <= factor * axis[i - 1]
            || axis[i - 1] == 0 && axis[i] == 1)
}

/// The powers of two that sweeps start and end with.
proof fn powers_in_numbers()
    ensures
        two_to(0) == 1,
        two_to(4) == 16,
        two_to(5) == 32,
        two_to(6) == 64,
        two_to(8) == 256,
        two_to(12) == 4096,
        two_to(13) == 8192,
        two_to(14) == 16384,
        two_to(16) == 65536,
        two_to(22) == 4194304,
        two_to(30) == 1073741824,
{
    reveal_with_fuel(two_to, 31);
}

proof fn small_powers()
    ensures
        two_to(1) == 2,
        two_to(2) == 4,
        two_to(3) == 8,
        two_to(7) == 128,
        two_to(9) == 512,
{
    reveal_with_fuel(two_to, 10);
}

/// What one of two lists holds, both hold together.
proof fn joined_holds(a: Seq<u32>, b: Seq<u32>, point: u32)
    ensures
        (a + b).contains(point) <==> a.contains(point) || b.contains(point),
{
    let all = a + b;
    if a.contains(point) {
        let i = choose|i: int| 0 <= i < a.len() && a[i] == point;
        assert(all[i] == point);
    }
    if b.contains(point) {
        let i = choose|i: int| 0 <= i < b.len() && b[i] == point;
        assert(all[a.len() + i] == point);
    }
}

/// The powers of two span their ends by twos.
pub proof fn pow2_spans(low: nat, high: nat)
    requires
        low <= high < 32,
    ensures
        spans(pow2_points(low, high), two_to(low) as int, two_to(high) as int, 2),
{
    let points = pow2_points(low, high);
    assert forall|i: int| 0 < i < points.len() implies #[trigger] points[i] > points[i - 1] && (
    points[i] <= 2 * points[i - 1] || points[i - 1] == 0 && points[i] == 1) by {
        pow2_points_double(low, high, i - 1);
    }
    pow2_points_ends(low, high);
}

/// What `all_reduce` is swept over, and the table that holds it.
pub proof fn all_reduce_range(config: AllReduceKernelConfig, tokens: Seq<u32>, backend: Seq<char>)
    ensures
        spans(AllReduceSpec::axes(config, tokens)[0], 4096, 1073741824, 2),
        AllReduceSpec::table(backend) == CacheKind::Cache1DLinear,
{
    pow2_spans(12, 30);
    powers_in_numbers();
}

/// What `deepseek_v4_indexer_mqa_logits_prefill` is swept over, and the table that holds it.
pub proof fn deepseek_v4_indexer_mqa_logits_prefill_range(
    config: DeepseekV4IndexerMqaLogitsPrefillKernelConfig,
    tokens: Seq<u32>,
    backend: Seq<char>,
)
    requires
        config.max_model_len >= 1048576,
    ensures
        spans(DeepseekV4IndexerMqaLogitsPrefillSpec::axes(config, tokens)[0], 1, 8192, 4),
        spans(DeepseekV4IndexerMqaLogitsPrefillSpec::axes(config, tokens)[1], 4, 1048576, 8),
        spans(DeepseekV4IndexerMqaLogitsPrefillSpec::axes(config, tokens)[2], 1, 64, 4),
        DeepseekV4IndexerMqaLogitsPrefillSpec::table(backend) == CacheKind::Cache3DLinear,
{
    let points = seq![4u32, 32, 128, 512, 2048, 8192, 32768, 65536, 262144, 1048576];
    at_most_of_all(points, config.max_model_len as int);
}

/// What `deepseek_v4_indexer_topk_prefill` is swept over, and the table that holds it.
pub proof fn deepseek_v4_indexer_topk_prefill_range(
    config: DeepseekV4IndexerTopkPrefillKernelConfig,
    tokens: Seq<u32>,
    backend: Seq<char>,
)
    requires
        config.max_model_len >= 1048576,
    ensures
        spans(DeepseekV4IndexerTopkPrefillSpec::axes(config, tokens)[0], 1, 8192, 4),
        spans(DeepseekV4IndexerTopkPrefillSpec::axes(config, tokens)[1], 4, 1048576, 8),
        spans(DeepseekV4IndexerTopkPrefillSpec::axes(config, tokens)[2], 1, 64, 4),
        DeepseekV4IndexerTopkPrefillSpec::table(backend) == CacheKind::Cache3DLinear,
{
    let points = seq![4u32, 32, 128, 512, 2048, 8192, 32768, 65536, 262144, 1048576];
    at_most_of_all(points, config.max_model_len as int);
}

/// What `deepseek_v4_indexer_q_rope_quant` is swept over, and the table that holds it.
pub proof fn deepseek_v4_indexer_q_rope_quant_range(
    config: DeepseekV4IndexerQRopeQuantKernelConfig,
    tokens: Seq<u32>,
    backend: Seq<char>,
)
    ensures
        spans(DeepseekV4IndexerQRopeQuantSpec::axes(config, tokens)[0], 1, 8192, 2),
        DeepseekV4IndexerQRopeQuantSpec::table(backend) == CacheKind::Cache1DLinear,
{
}

/// What `deepseek_v4_indexer_topk_decode` is swept over, and the table that holds it.
pub proof fn deepseek_v4_indexer_topk_decode_range(
    config: DeepseekV4IndexerTopkDecodeKernelConfig,
    tokens: Seq<u32>,
    backend: Seq<char>,
)
    ensures
        spans(DeepseekV4IndexerTopkDecodeSpec::axes(config, tokens)[0], 1, 256, 2),
        spans(DeepseekV4IndexerTopkDecodeSpec::axes(config, tokens)[1], 0, 1048576, 128),
        DeepseekV4IndexerTopkDecodeSpec::table(backend)
            == CacheKind::Cache2DLinear(Extrapolation::Product),
{
}

/// What `deepseek_v4_packed_cache_gather` is swept over, and the table that holds it.
pub proof fn deepseek_v4_packed_cache_gather_range(
    config: DeepseekV4PackedCacheGatherKernelConfig,
    tokens: Seq<u32>,
    backend: Seq<char>,
)
    requires
        config.max_gather_rows >= 16384,
    ensures
        spans(DeepseekV4PackedCacheGatherSpec::axes(config, tokens)[0], 1, 4, 2),
        spans(DeepseekV4PackedCacheGatherSpec::axes(config, tokens)[1], 1, 16384, 2),
        DeepseekV4PackedCacheGatherSpec::table(backend)
            == CacheKind::Cache2DLinear(Extrapolation::Product),
{
    let points = selected_points();
    at_most_of_all(points, config.max_gather_rows as int);
}

/// What `deepseek_v4_sparse_attn_compress_store` is swept over, and the table that holds it.
pub proof fn deepseek_v4_sparse_attn_compress_store_range(
    config: DeepseekV4SparseAttnCompressStoreKernelConfig,
    tokens: Seq<u32>,
    backend: Seq<char>,
)
    ensures
        spans(DeepseekV4SparseAttnCompressStoreSpec::axes(config, tokens)[0], 1, 8192, 2),
        DeepseekV4SparseAttnCompressStoreSpec::table(backend)
            == CacheKind::Cache2DLinear(Extrapolation::Weighted),
{
    pow2_spans(0, 13);
    powers_in_numbers();
}

/// What `deepseek_v4_sparse_mla_decode` is swept over, and the table that holds it.
pub proof fn deepseek_v4_sparse_mla_decode_range(
    config: DeepseekV4SparseMlaDecodeKernelConfig,
    tokens: Seq<u32>,
    backend: Seq<char>,
)
    ensures
        spans(DeepseekV4SparseMlaDecodeSpec::axes(config, tokens)[0], 1, 256, 2),
        DeepseekV4SparseMlaDecodeSpec::table(backend)
            == CacheKind::Cache2DLinear(Extrapolation::Product),
{
}

/// What `deepseek_v4_sparse_mla_prefill` is swept over, and the table that holds it.
pub proof fn deepseek_v4_sparse_mla_prefill_range(
    config: DeepseekV4SparseMlaPrefillKernelConfig,
    tokens: Seq<u32>,
    backend: Seq<char>,
)
    requires
        config.max_model_len >= 1048576,
    ensures
        spans(DeepseekV4SparseMlaPrefillSpec::axes(config, tokens)[0], 1, 8192, 4),
        spans(DeepseekV4SparseMlaPrefillSpec::axes(config, tokens)[1], 1, 1048576, 32),
        spans(DeepseekV4SparseMlaPrefillSpec::axes(config, tokens)[2], 1, 16, 2),
        DeepseekV4SparseMlaPrefillSpec::table(backend) == CacheKind::Cache3DLinear,
{
    let points = seq![1u32, 32, 128, 512, 2048, 8192, 32768, 65536, 262144, 1048576];
    at_most_of_all(points, config.max_model_len as int);
}

/// What `dsa_mqa_logits_prefill` is swept over, and the table that holds it.
pub proof fn dsa_mqa_logits_prefill_range(
    config: DsaMqaLogitsPrefillKernelConfig,
    tokens: Seq<u32>,
    backend: Seq<char>,
)
    ensures
        spans(DsaMqaLogitsPrefillSpec::axes(config, tokens)[0], 1, 65536, 2),
        spans(DsaMqaLogitsPrefillSpec::axes(config, tokens)[1], 1, 1048576, 2),
        DsaMqaLogitsPrefillSpec::table(backend) == CacheKind::Cache2DLinear(Extrapolation::Product),
{
}

/// What `dsa_paged_mqa_logits_decode` is swept over, and the table that holds it.
pub proof fn dsa_paged_mqa_logits_decode_range(
    config: DsaPagedMqaLogitsDecodeKernelConfig,
    tokens: Seq<u32>,
    backend: Seq<char>,
)
    ensures
        spans(DsaPagedMqaLogitsDecodeSpec::axes(config, tokens)[0], 1, 256, 2),
        spans(DsaPagedMqaLogitsDecodeSpec::axes(config, tokens)[1], 1, 65536, 63),
        DsaPagedMqaLogitsDecodeSpec::table(backend)
            == CacheKind::Cache2DLinear(Extrapolation::Product),
{
}

/// What `dsa_persistent_topk_decode` is swept over, and the table that holds it.
pub proof fn dsa_persistent_topk_decode_range(
    config: DsaPersistentTopkDecodeKernelConfig,
    tokens: Seq<u32>,
    backend: Seq<char>,
)
    ensures
        spans(DsaPersistentTopkDecodeSpec::axes(config, tokens)[0], 1, 256, 2),
        spans(DsaPersistentTopkDecodeSpec::axes(config, tokens)[1], 0, 1048576, 64),
        DsaPersistentTopkDecodeSpec::table(backend)
            == CacheKind::Cache2DLinear(Extrapolation::Product),
{
}

/// What `dsa_sparse_index_remap` is swept over, and the table that holds it.
pub proof fn dsa_sparse_index_remap_range(
    config: DsaSparseIndexRemapKernelConfig,
    tokens: Seq<u32>,
    backend: Seq<char>,
)
    ensures
        spans(DsaSparseIndexRemapSpec::axes(config, tokens)[0], 1, 8192, 8),
        spans(DsaSparseIndexRemapSpec::axes(config, tokens)[1], 0, 2048, 64),
        spans(DsaSparseIndexRemapSpec::axes(config, tokens)[2], 0, 8192, 8),
        DsaSparseIndexRemapSpec::table(backend) == CacheKind::Cache3DLinear,
{
}

/// What `dsa_sparse_mla_prefill` is swept over, and the table that holds it.
pub proof fn dsa_sparse_mla_prefill_range(
    config: DsaSparseMlaPrefillKernelConfig,
    tokens: Seq<u32>,
    backend: Seq<char>,
)
    requires
        config.max_model_len >= 1048576,
    ensures
        spans(DsaSparseMlaPrefillSpec::axes(config, tokens)[0], 1, 8192, 8),
        spans(DsaSparseMlaPrefillSpec::axes(config, tokens)[1], 1, 64, 4),
        spans(DsaSparseMlaPrefillSpec::axes(config, tokens)[2], 1, 1048576, 32),
        DsaSparseMlaPrefillSpec::table(backend) == CacheKind::Cache3DLinear,
{
    let points = seq![
        1u32,
        32,
        128,
        192,
        256,
        512,
        1024,
        2048,
        4096,
        8192,
        65536,
        1048576,
    ];
    at_most_of_all(points, config.max_model_len as int);
}

/// What `dsa_topk_prefill` is swept over, and the table that holds it.
pub proof fn dsa_topk_prefill_range(
    config: DsaTopkPrefillKernelConfig,
    tokens: Seq<u32>,
    backend: Seq<char>,
)
    ensures
        spans(DsaTopkPrefillSpec::axes(config, tokens)[0], 1, 65536, 2),
        spans(DsaTopkPrefillSpec::axes(config, tokens)[1], 1, 1048576, 2),
        DsaTopkPrefillSpec::table(backend) == CacheKind::Cache2DLinear(Extrapolation::Product),
{
}

/// What `flashinfer_attn_decode` is swept over, and the table that holds it.
pub proof fn flashinfer_attn_decode_range(
    config: FlashinferAttnDecodeKernelConfig,
    tokens: Seq<u32>,
    backend: Seq<char>,
)
    ensures
        spans(FlashinferAttnDecodeSpec::axes(config, tokens)[0], 1, 256, 2),
        spans(FlashinferAttnDecodeSpec::axes(config, tokens)[1], 32, 4194304, 2),
        FlashinferAttnDecodeSpec::table(backend)
            == CacheKind::Cache2DLinear(Extrapolation::Product),
{
    pow2_spans(0, 8);
    pow2_spans(5, 22);
    powers_in_numbers();
}

/// What `flashinfer_attn_prefill` is swept over, and the table that holds it.
pub proof fn flashinfer_attn_prefill_range(
    config: FlashinferAttnPrefillKernelConfig,
    tokens: Seq<u32>,
    backend: Seq<char>,
)
    ensures
        spans(FlashinferAttnPrefillSpec::axes(config, tokens)[0], 64, 65536, 2),
        FlashinferAttnPrefillSpec::table(backend)
            == CacheKind::Cache2DLinear(Extrapolation::Product),
{
    pow2_spans(6, 16);
    powers_in_numbers();
}

/// What `gdn_causal_conv_decode` is swept over, and the table that holds it.
pub proof fn gdn_causal_conv_decode_range(
    config: GdnCausalConvDecodeKernelConfig,
    tokens: Seq<u32>,
    backend: Seq<char>,
)
    ensures
        spans(GdnCausalConvDecodeSpec::axes(config, tokens)[0], 1, 256, 2),
        GdnCausalConvDecodeSpec::table(backend) == CacheKind::Cache1DLinear,
{
    pow2_spans(0, 8);
    powers_in_numbers();
}

/// What `gdn_causal_conv_prefill` is swept over, and the table that holds it.
pub proof fn gdn_causal_conv_prefill_range(
    config: GdnCausalConvPrefillKernelConfig,
    tokens: Seq<u32>,
    backend: Seq<char>,
)
    ensures
        spans(GdnCausalConvPrefillSpec::axes(config, tokens)[0], 1, 256, 2),
        GdnCausalConvPrefillSpec::table(backend)
            == CacheKind::Cache2DLinear(Extrapolation::Product),
{
    pow2_spans(0, 8);
    powers_in_numbers();
}

/// What `gdn_chunk_delta_rule` is swept over, and the table that holds it.
pub proof fn gdn_chunk_delta_rule_range(
    config: GdnChunkDeltaRuleKernelConfig,
    tokens: Seq<u32>,
    backend: Seq<char>,
)
    ensures
        spans(GdnChunkDeltaRuleSpec::axes(config, tokens)[0], 64, 16384, 2),
        spans(GdnChunkDeltaRuleSpec::axes(config, tokens)[1], 1, 16, 2),
        GdnChunkDeltaRuleSpec::table(backend) == CacheKind::Cache2DLinear(Extrapolation::Product),
{
    pow2_spans(6, 14);
    pow2_spans(0, 4);
    powers_in_numbers();
}

/// Every pattern of sparse attention is swept from few rows to many, never by more than
/// twice as many at a time, but for the longest pooled contexts.
pub proof fn dsa_sparse_mla_attention_range()
    ensures
        spans(uniform_query_points(), 1, 65536, 2),
        spans(uniform_cache_points(), 1, 1048576, 2),
        spans(causal_query_points(), 1, 65536, 2),
        spans(causal_cache_points(), 1, 1048576, 2),
        spans(pair_query_points(), 2, 65536, 2),
        spans(pair_cache_points(), 1, 1048576, 2),
        spans(pooled_query_points(), 1, 32768, 2),
        spans(pooled_base_points(), 1, 1048576, 4),
{
}

/// What `batched_gemm` is swept over: its own points, and the token counts.
pub proof fn batched_gemm_points(
    config: BatchedGemmKernelConfig,
    tokens: Seq<u32>,
    point: u32,
)
    ensures
        BatchedGemmSpec::axes(config, tokens)[0].contains(point)
            <==> seq![1u32, 2, 4, 8, 16].contains(point) || tokens.contains(point),
{
    powers_in_numbers();
    small_powers();
    let powers = pow2_points(0, 4);
    assert(powers =~= seq![1u32, 2, 4, 8, 16]);
    chained_holds(powers, tokens, point);
    let own = seq![1u32, 2, 4, 8, 16];
    assert(own =~= powers);
}

/// What `clamped_swiglu` is swept over: its own points, and the token counts.
pub proof fn clamped_swiglu_points(
    config: ClampedSwigluKernelConfig,
    tokens: Seq<u32>,
    point: u32,
)
    ensures
        ClampedSwigluSpec::axes(config, tokens)[0].contains(point)
            <==> seq![1u32, 2, 4, 8, 16].contains(point) || tokens.contains(point),
{
    powers_in_numbers();
    small_powers();
    let powers = pow2_points(0, 4);
    assert(powers =~= seq![1u32, 2, 4, 8, 16]);
    chained_holds(powers, tokens, point);
    let own = seq![1u32, 2, 4, 8, 16];
    assert(own =~= powers);
}

/// What `deepseek_v4_fused_q_kv_rmsnorm` is swept over: its own points, and the token counts.
pub proof fn deepseek_v4_fused_q_kv_rmsnorm_points(
    config: DeepseekV4FusedQKvRmsnormKernelConfig,
    tokens: Seq<u32>,
    point: u32,
)
    ensures
        DeepseekV4FusedQKvRmsnormSpec::axes(config, tokens)[0].contains(point)
            <==> seq![1u32, 2, 4, 8, 16].contains(point) || tokens.contains(point),
{
    powers_in_numbers();
    small_powers();
    let powers = pow2_points(0, 4);
    assert(powers =~= seq![1u32, 2, 4, 8, 16]);
    chained_holds(powers, tokens, point);
    ascending_of_holds(chained(powers, tokens));
    let own = seq![1u32, 2, 4, 8, 16];
    assert(own =~= powers);
}

/// What `dsa_index_cache_append` is swept over: its own points, and the token counts.
pub proof fn dsa_index_cache_append_points(
    config: DsaIndexCacheAppendKernelConfig,
    tokens: Seq<u32>,
    point: u32,
)
    ensures
        DsaIndexCacheAppendSpec::axes(config, tokens)[0].contains(point)
            <==> seq![
                1u32, 2, 4, 8, 16, 32, 64, 128, 256, 264, 265,
            ].contains(point) || tokens.contains(point),
{
    powers_in_numbers();
    small_powers();
    let powers = pow2_points(0, 8);
    assert(powers =~= seq![1u32, 2, 4, 8, 16, 32, 64, 128, 256]);
    let edges = seq![264u32, 265];
    chained_holds(powers, edges, point);
    let base = chained(powers, edges);
    chained_holds(base, tokens, point);
    let own = seq![1u32, 2, 4, 8, 16, 32, 64, 128, 256, 264, 265];
    assert(own =~= powers + edges);
    joined_holds(powers, edges, point);
}

/// What `dsa_indexer_q_rope_quant` is swept over: its own points, and the token counts.
pub proof fn dsa_indexer_q_rope_quant_points(
    config: DsaIndexerQRopeQuantKernelConfig,
    tokens: Seq<u32>,
    point: u32,
)
    ensures
        DsaIndexerQRopeQuantSpec::axes(config, tokens)[0].contains(point)
            <==> seq![1u32, 4, 8, 16, 32, 48].contains(point) || tokens.contains(point),
{
    let base = seq![1u32, 4, 8, 16, 32, 48];
    chained_holds(base, tokens, point);
    let own = seq![1u32, 4, 8, 16, 32, 48];
}

/// What `fp8_block_quant` is swept over: its own points, and the token counts.
pub proof fn fp8_block_quant_points(
    config: Fp8BlockQuantKernelConfig,
    tokens: Seq<u32>,
    point: u32,
)
    ensures
        Fp8BlockQuantSpec::axes(config, tokens)[0].contains(point)
            <==> seq![1u32, 4, 8, 16, 32, 48].contains(point) || tokens.contains(point),
{
    let base = seq![1u32, 4, 8, 16, 32, 48];
    chained_holds(base, tokens, point);
    let own = seq![1u32, 4, 8, 16, 32, 48];
}

/// What `fp8_per_token_group_quant` is swept over: its own points, and the token counts.
pub proof fn fp8_per_token_group_quant_points(
    config: Fp8PerTokenGroupQuantKernelConfig,
    tokens: Seq<u32>,
    point: u32,
)
    ensures
        Fp8PerTokenGroupQuantSpec::axes(config, tokens)[0].contains(point)
            <==> seq![1u32, 4, 8, 16, 32, 48].contains(point) || tokens.contains(point),
{
    let base = seq![1u32, 4, 8, 16, 32, 48];
    chained_holds(base, tokens, point);
    let own = seq![1u32, 4, 8, 16, 32, 48];
}

/// What `fp8_blockscale_grouped_gemm` is swept over: its own points, and the token counts.
pub proof fn fp8_blockscale_grouped_gemm_points(
    config: Fp8BlockscaleGroupedGemmKernelConfig,
    tokens: Seq<u32>,
    point: u32,
)
    ensures
        Fp8BlockscaleGroupedGemmSpec::axes(config, tokens)[0].contains(point)
            <==> seq![1u32, 4, 8, 16, 32, 48].contains(point) || tokens.contains(point),
{
    let base = seq![1u32, 4, 8, 16, 32, 48];
    chained_holds(base, tokens, point);
    let own = seq![1u32, 4, 8, 16, 32, 48];
}

/// What `deepseek_v4_fused_inv_rope_fp8_quant` is swept over: its own points, and the token
/// counts up to 8192.
pub proof fn deepseek_v4_fused_inv_rope_fp8_quant_points(
    config: DeepseekV4FusedInvRopeFp8QuantKernelConfig,
    tokens: Seq<u32>,
    point: u32,
)
    ensures
        DeepseekV4FusedInvRopeFp8QuantSpec::axes(config, tokens)[0].contains(point)
            <==> seq![
                1u32, 2, 4, 8, 16, 32, 64, 128, 256, 511, 512, 513,
            ].contains(point) || (tokens.contains(point) && point <= 8192),
{
    powers_in_numbers();
    small_powers();
    let powers = pow2_points(0, 8);
    assert(powers =~= seq![1u32, 2, 4, 8, 16, 32, 64, 128, 256]);
    let edges = seq![511u32, 512, 513];
    chained_holds(powers, edges, point);
    let base = chained(powers, edges);
    at_most_keeps(tokens, 8192, point);
    let kept = at_most(tokens, 8192);
    chained_holds(base, kept, point);
    ascending_of_holds(chained(base, kept));
    let own = seq![1u32, 2, 4, 8, 16, 32, 64, 128, 256, 511, 512, 513];
    assert(own =~= powers + edges);
    joined_holds(powers, edges, point);
}

/// What `deepseek_v4_qnorm_rope_kv_insert` is swept over: its own points, and the token counts.
pub proof fn deepseek_v4_qnorm_rope_kv_insert_points(
    config: DeepseekV4QnormRopeKvInsertKernelConfig,
    tokens: Seq<u32>,
    point: u32,
)
    ensures
        DeepseekV4QnormRopeKvInsertSpec::axes(config, tokens)[0].contains(point)
            <==> seq![
                1u32, 2, 4, 8, 16, 32, 64, 128, 256, 512, 1023, 1024,
                1025,
            ].contains(point) || tokens.contains(point),
{
    powers_in_numbers();
    small_powers();
    let powers = pow2_points(0, 9);
    assert(powers =~= seq![1u32, 2, 4, 8, 16, 32, 64, 128, 256, 512]);
    let edges = seq![1023u32, 1024, 1025];
    chained_holds(powers, edges, point);
    let base = chained(powers, edges);
    chained_holds(base, tokens, point);
    ascending_of_holds(chained(base, tokens));
    let own = seq![1u32, 2, 4, 8, 16, 32, 64, 128, 256, 512, 1023, 1024, 1025];
    assert(own =~= powers + edges);
    joined_holds(powers, edges, point);
}

/// The valid rows of sparse decode: up to the window where nothing is kept beyond it, from
/// the window on at the compression ratio of 4, and as far as the extra index reaches else.
pub proof fn deepseek_v4_sparse_mla_decode_points(
    config: DeepseekV4SparseMlaDecodeKernelConfig,
    tokens: Seq<u32>,
    point: u32,
)
    requires
        DeepseekV4SparseMlaDecodeSpec::admits(config),
    ensures
        ({
            let rows = DeepseekV4SparseMlaDecodeSpec::axes(config, tokens)[1];
            &&& config.compress_ratio == 1 ==> spans(rows, 1, 128, 32)
            &&& config.compress_ratio == 4 ==> spans(rows, 128, 640, 2)
            &&& config.compress_ratio == 128 && config.extra_index_capacity >= 512 ==> spans(
                rows,
                1,
                640,
                64,
            )
            &&& rows.contains(point) && config.compress_ratio == 128 ==> point <= 128
                + config.extra_index_capacity
        }),
{
    if config.compress_ratio == 128 {
        let points = seq![1u32, 64, 128, 160, 192, 256, 384, 512, 640];
        let limit = 128 + config.extra_index_capacity;
        at_most_keeps(points, limit, point);
        if limit >= 640 {
            at_most_of_all(points, limit);
        }
    }
}

} // verus!
