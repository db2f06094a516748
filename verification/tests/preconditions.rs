//! Which configurations can be swept and which launches can be looked up.

use timing::bridge::payload::DType;
use timing::expert_demand::{ExpertDemand, TokenCorpusConfig};
use timing::kernels::all_reduce_fusion::{AllReduceFusionKernelConfig, AllReduceFusionSpec};
use timing::kernels::config::Fabric;
use timing::kernels::deepseek_v4_packed_cache_gather::DeepseekV4PackedCacheGatherKernelInput;
use timing::kernels::deepseek_v4_qnorm_rope_kv_insert::DeepseekV4QnormRopeKvInsertKernelInput;
use timing::kernels::deepseek_v4_sparse_attn_compress_store::{
    can_place_rows, DeepseekV4SparseAttnCompressStoreKernelInput,
};
use timing::kernels::deepseek_v4_sparse_mla_decode::DeepseekV4SparseMlaDecodeKernelInput;
use timing::kernels::dsa_sparse_index_remap::{
    DsaSparseIndexRemapKernelInput, DsaSparseIndexRemapWorkspacePartition,
};
use timing::kernels::dsa_sparse_mla_prefill::DsaSparseMlaPrefillKernelInput;
use timing::kernels::engine::{KernelSpec, SweepCoords};
use timing::kernels::request_split::can_launch;
use timing::text::text_contains;

#[test]
fn a_text_is_found_anywhere_in_another() {
    assert!(text_contains("NVIDIA B200", "B200"));
    assert!(text_contains("B200", "B200"));
    assert!(text_contains("B2B200x", "B200"));
    assert!(text_contains("anything", ""));
    assert!(text_contains("", ""));
    assert!(!text_contains("NVIDIA B20", "B200"));
    assert!(!text_contains("", "B200"));
    assert!(!text_contains("b200", "B200"));
}

#[test]
fn fused_all_reduce_needs_its_gpu_and_group() {
    let config = |gpu_name: &str, num_gpus: u32, hidden_dim: u32| AllReduceFusionKernelConfig {
        backends: vec!["flashinfer"],
        gpu_name: gpu_name.to_string(),
        num_gpus,
        hidden_dim,
        dtype: DType::Bf16,
        fabric: Fabric::Nvlink,
    };
    assert!(AllReduceFusionSpec::can_sweep(&config("NVIDIA B200", 8, 7168)));
    assert!(!AllReduceFusionSpec::can_sweep(&config("NVIDIA H200", 8, 7168)));
    assert!(!AllReduceFusionSpec::can_sweep(&config("NVIDIA B200", 3, 7168)));
    assert!(!AllReduceFusionSpec::can_sweep(&config("NVIDIA B200", 8, 0)));
}

#[test]
fn a_corpus_axis_must_fit_token_counts() {
    let corpus = |group_size: u32| {
        ExpertDemand::corpus(TokenCorpusConfig {
            data_file: "corpus.bin".to_string(),
            checksum_fnv1a64: 1,
            num_experts: 64,
            group_size,
            seed: 7,
            first_layer: 0,
            end_layer: 1,
            sampling_candidates: 4,
        })
    };
    assert!(corpus(u32::MAX / 8).has_axis());
    assert!(!corpus(u32::MAX / 8 + 1).has_axis());
    assert!(ExpertDemand::popularity_summed(vec![1, 2]).has_axis());
}

#[test]
fn a_batch_needs_rows_within_their_context() {
    assert!(can_launch(&vec![(1, 1)]));
    assert!(can_launch(&vec![(128, 4096); 64]));
    assert!(!can_launch(&vec![]));
    assert!(!can_launch(&vec![(1, 1); 65]));
    assert!(!can_launch(&vec![(0, 1)]));
    assert!(!can_launch(&vec![(2, 1)]));
    assert!(can_launch(&vec![(8192, 8192)]));
    assert!(!can_launch(&vec![(8192, 8192), (1, 1)]));
    assert!(!can_launch(&vec![(u32::MAX, u32::MAX), (u32::MAX, u32::MAX)]));
    assert!(DsaSparseMlaPrefillKernelInput { query_context_pairs: vec![(4, 8)] }.is_well_shaped());
    assert!(!DsaSparseMlaPrefillKernelInput { query_context_pairs: vec![] }.is_well_shaped());
}

#[test]
fn gathered_rows_stay_within_their_sequences() {
    let input = |seq_lens: &[u32], gather_lens: &[u32]| DeepseekV4PackedCacheGatherKernelInput {
        seq_lens: seq_lens.to_vec(),
        gather_lens: gather_lens.to_vec(),
    };
    assert!(input(&[4, 8], &[]).is_well_shaped());
    assert!(input(&[4, 8], &[4, 7]).is_well_shaped());
    assert!(!input(&[], &[]).is_well_shaped());
    assert!(!input(&[1; 5], &[]).is_well_shaped());
    assert!(!input(&[4, 8], &[4]).is_well_shaped());
    assert!(!input(&[4, 8], &[5, 8]).is_well_shaped());
}

#[test]
fn rows_of_requests_are_numbered_without_a_gap() {
    let input = |positions: &[u32], ids: &[u32], width: u32| {
        DeepseekV4SparseAttnCompressStoreKernelInput {
            row_positions: positions.to_vec(),
            row_request_ids: ids.to_vec(),
            state_block_table_width: width,
        }
    };
    assert!(can_place_rows(&input(&[0, 1, 0], &[0, 0, 1], 1)));
    assert!(can_place_rows(&input(&[0, 0], &[1, 0], 1)));
    assert!(!can_place_rows(&input(&[], &[], 1)));
    assert!(!can_place_rows(&input(&[0, 0], &[0], 1)));
    assert!(!can_place_rows(&input(&[0, 0], &[0, 2], 1)));
    assert!(!can_place_rows(&input(&[0], &[1], 1)));
    assert!(!can_place_rows(&input(&[0], &[64], 1)));
    assert!(!can_place_rows(&input(&[0], &[0], 0)));
    assert!(!can_place_rows(&input(&[u32::MAX], &[0], 1)));
}

#[test]
fn remapped_slots_stay_within_their_spans() {
    let input = |rows: &[u32], spans: &[u32], valid: &[u32]| DsaSparseIndexRemapKernelInput {
        request_row_counts: rows.to_vec(),
        local_span_lengths: spans.to_vec(),
        valid_counts: valid.to_vec(),
        workspace_partition: None,
    };
    assert!(input(&[1, 2], &[9, 9, 9], &[9, 0, 3]).is_well_shaped());
    assert!(!input(&[], &[], &[]).is_well_shaped());
    assert!(!input(&[0, 1], &[9], &[9]).is_well_shaped());
    assert!(!input(&[1, 2], &[9, 9], &[9, 0, 3]).is_well_shaped());
    assert!(!input(&[1], &[9], &[10]).is_well_shaped());
    assert!(!input(&[1], &[4096], &[2049]).is_well_shaped());
    assert!(!input(&[1], &[1048577], &[1]).is_well_shaped());

    let partitioned = |decode_requests: u32, chunk_sizes: &[u32]| {
        let mut launch = input(&[1, 2, 1], &[9; 4], &[9; 4]);
        launch.workspace_partition = Some(DsaSparseIndexRemapWorkspacePartition {
            decode_requests,
            chunk_sizes: chunk_sizes.to_vec(),
        });
        launch
    };
    assert!(partitioned(1, &[1, 1]).is_well_shaped());
    assert!(partitioned(0, &[3]).is_well_shaped());
    assert!(!partitioned(3, &[1]).is_well_shaped());
    assert!(!partitioned(1, &[]).is_well_shaped());
    assert!(!partitioned(1, &[2, 0]).is_well_shaped());
    assert!(!partitioned(1, &[3]).is_well_shaped());
}

#[test]
fn counts_and_insertions_match_their_tokens() {
    let decode = |window: usize, extra: usize| DeepseekV4SparseMlaDecodeKernelInput {
        swa_valid_counts: vec![1; window],
        extra_valid_counts: vec![0; extra],
    };
    assert!(decode(256, 256).is_well_shaped());
    assert!(!decode(0, 0).is_well_shaped());
    assert!(!decode(257, 257).is_well_shaped());
    assert!(!decode(2, 1).is_well_shaped());

    let insert = |num_tokens: u32, num_insert_tokens: u32| DeepseekV4QnormRopeKvInsertKernelInput {
        num_tokens,
        num_insert_tokens,
    };
    assert!(insert(4, 4).is_well_shaped());
    assert!(!insert(4, 5).is_well_shaped());
    assert!(!insert(0, 0).is_well_shaped());
}
