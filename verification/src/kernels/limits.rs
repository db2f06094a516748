//! How much of a sweep is profiled: which cells are too large, and how many tokens a fused
//! launch takes.

use crate::bridge::payload::DType;
use crate::kernels::all_reduce_fusion::{
    fused_token_limit, AllReduceFusionKernelConfig, AllReduceFusionSpec,
};
use crate::kernels::all_reduce_residual_rms_norm::{
    residual_token_limit, AllReduceResidualRmsNormKernelConfig, AllReduceResidualRmsNormSpec,
};
use crate::kernels::dsa_mqa_logits_prefill::{
    DsaMqaLogitsPrefillKernelConfig, DsaMqaLogitsPrefillSpec,
};
use crate::kernels::dsa_paged_mqa_logits_decode::{
    DsaPagedMqaLogitsDecodeKernelConfig, DsaPagedMqaLogitsDecodeSpec,
};
use crate::kernels::dsa_persistent_topk_decode::{
    DsaPersistentTopkDecodeKernelConfig, DsaPersistentTopkDecodeSpec,
};
use crate::kernels::dsa_topk_prefill::{
    padded_stride, DsaTopkPrefillKernelConfig, DsaTopkPrefillSpec,
};
use crate::kernels::engine::KernelSpec;
use crate::kernels::gdn_causal_conv_prefill::{
    GdnCausalConvPrefillKernelConfig, GdnCausalConvPrefillSpec,
};
use crate::kernels::gdn_chunk_delta_rule::{GdnChunkDeltaRuleKernelConfig, GdnChunkDeltaRuleSpec};
use vstd::prelude::*;

verus! {

/// The bytes of a number of a precision.
pub open spec fn width_of(dtype: DType) -> int {
    if dtype == DType::Fp32 {
        4
    } else if dtype == DType::Fp16 || dtype == DType::Bf16 {
        2
    } else {
        1
    }
}

/// Whether a limit is the largest number of rows of some bytes that fit a workspace.
pub open spec fn fills(limit: int, row: int, workspace: int) -> bool {
    limit * row <= workspace < (limit + 1) * row
}

/// A fused all-reduce takes as many tokens as fit its workspace: 64 MiB between two GPUs,
/// 32 MiB between four, 1 MiB between eight.
pub proof fn fused_tokens_fill_the_workspace(config: AllReduceFusionKernelConfig)
    requires
        AllReduceFusionSpec::admits(config),
    ensures
        fills(
            fused_token_limit(config),
            config.hidden_dim * width_of(config.dtype),
            if config.num_gpus == 2 {
                67108864
            } else if config.num_gpus == 4 {
                33554432
            } else {
                1048576
            },
        ),
{
    let row = config.hidden_dim * width_of(config.dtype);
    assert(row > 0) by (nonlinear_arith)
        requires
            row == config.hidden_dim * width_of(config.dtype),
            config.hidden_dim > 0,
            width_of(config.dtype) >= 1,
    ;
    quotient_fills(67108864, row);
    quotient_fills(33554432, row);
    quotient_fills(1048576, row);
}

/// A fused residual norm takes as many tokens as fit its workspace: 64 MiB between two
/// GPUs, 2 MiB between four, 512 KiB between eight.
pub proof fn residual_tokens_fill_the_workspace(config: AllReduceResidualRmsNormKernelConfig)
    requires
        AllReduceResidualRmsNormSpec::admits(config),
    ensures
        fills(
            residual_token_limit(config),
            config.hidden_dim * width_of(config.dtype),
            if config.num_gpus == 2 {
                67108864
            } else if config.num_gpus == 4 {
                2097152
            } else {
                524288
            },
        ),
{
    let row = config.hidden_dim * width_of(config.dtype);
    assert(row > 0) by (nonlinear_arith)
        requires
            row == config.hidden_dim * width_of(config.dtype),
            config.hidden_dim > 0,
            width_of(config.dtype) >= 1,
    ;
    quotient_fills(67108864, row);
    quotient_fills(2097152, row);
    quotient_fills(524288, row);
}

proof fn quotient_fills(workspace: int, row: int)
    requires
        row > 0,
    ensures
        fills(workspace / row, row, workspace),
{
    assert((workspace / row) * row <= workspace < (workspace / row + 1) * row) by (nonlinear_arith)
        requires
            row > 0,
    ;
}

/// Dense logits are profiled where no query row comes after the last key, and where scores
/// and mask, five bytes to a pair, fit 32 GiB.
pub proof fn dense_logits_fit(config: DsaMqaLogitsPrefillKernelConfig, cell: Seq<u32>)
    ensures
        DsaMqaLogitsPrefillSpec::infeasible(config, cell) <==> cell[0] > cell[1] || cell[0]
            * cell[1] * 5 > 34359738368,
{
}

/// Selection is profiled where no query row comes after the last key, and where the padded
/// rows of logits, four bytes to a number, fit 32 GiB. A row is padded to whole tiles of 256
/// and by one tile more.
pub proof fn padded_logits_fit(config: DsaTopkPrefillKernelConfig, cell: Seq<u32>, stride: int)
    requires
        stride % 256 == 0,
        cell[1] + 256 <= stride < cell[1] + 512,
    ensures
        DsaTopkPrefillSpec::infeasible(config, cell) <==> cell[0] > cell[1] || cell[0] * stride * 4
            > 34359738368,
{
    assert(stride == padded_stride(cell[1] as int));
}

/// Paged logits are profiled up to the longest context of the model.
pub proof fn paged_contexts_fit(config: DsaPagedMqaLogitsDecodeKernelConfig, cell: Seq<u32>)
    ensures
        DsaPagedMqaLogitsDecodeSpec::infeasible(config, cell) <==> cell[1]
            > config.max_model_len@.fold(),
{
}

/// Decode selection is profiled where the context holds the rows that are verified together
/// but for one and is no longer than the model's, and where the padded rows of logits of
/// the batch, four bytes to a number, fit 32 GiB.
pub proof fn persistent_logits_fit(config: DsaPersistentTopkDecodeKernelConfig, cell: Seq<u32>)
    ensures
        DsaPersistentTopkDecodeSpec::infeasible(config, cell) <==> cell[1] + 1 < config.next_n
            || cell[1] > config.max_model_len@.fold() || cell[0] * (
        config.logits_row_stride@.fold() * 4 * config.next_n) > 34359738368,
{
}

/// Convolutions are profiled up to 262144 tokens in all.
pub proof fn convolved_tokens_fit(config: GdnCausalConvPrefillKernelConfig, cell: Seq<u32>)
    ensures
        GdnCausalConvPrefillSpec::infeasible(config, cell) <==> cell[0] * cell[1] > 262144,
{
}

/// Delta rules are profiled up to 65536 tokens in all.
pub proof fn chunked_tokens_fit(config: GdnChunkDeltaRuleKernelConfig, cell: Seq<u32>)
    ensures
        GdnChunkDeltaRuleSpec::infeasible(config, cell) <==> cell[0] * cell[1] > 65536,
{
}

} // verus!
