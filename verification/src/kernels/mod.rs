//! Kernel kinds: their sweeps, wire payloads and cache shapes.

pub mod all_reduce;
pub mod all_reduce_fusion;
pub mod all_reduce_residual_rms_norm;
pub mod batched_gemm;
pub mod bf16_fused_moe;
pub mod clamped_swiglu;
pub mod compact_counts;
pub mod compact_reading;
pub mod config;
pub mod deepseek_v4_fused_inv_rope_fp8_quant;
pub mod deepseek_v4_fused_q_kv_rmsnorm;
pub mod deepseek_v4_indexer_mqa_logits_decode;
pub mod deepseek_v4_indexer_mqa_logits_prefill;
pub mod deepseek_v4_indexer_q_rope_quant;
pub mod deepseek_v4_indexer_topk_decode;
pub mod deepseek_v4_indexer_topk_prefill;
pub mod deepseek_v4_packed_cache_gather;
pub mod deepseek_v4_qnorm_rope_kv_insert;
pub mod deepseek_v4_sparse_attn_compress_store;
pub mod deepseek_v4_sparse_mla_decode;
pub mod deepseek_v4_sparse_mla_prefill;
pub mod dsa_index_cache_append;
pub mod dsa_indexer_q_rope_quant;
pub mod dsa_mqa_logits_prefill;
pub mod dsa_paged_mqa_logits_decode;
pub mod dsa_persistent_topk_decode;
pub mod dsa_sparse_index_remap;
pub mod dsa_sparse_mla_attention;
pub mod dsa_sparse_mla_prefill;
pub mod dsa_topk_prefill;
pub mod elementwise;
pub mod engine;
pub mod feasible;
pub mod flashinfer_attn_decode;
pub mod flashinfer_attn_prefill;
pub mod flashinfer_attn_rect;
pub mod fp8_block_quant;
pub mod fp8_blockscale_grouped_gemm;
pub mod fp8_per_token_group_quant;
pub mod gdn_causal_conv_decode;
pub mod gdn_causal_conv_prefill;
pub mod gdn_chunk_delta_rule;
pub mod kernel;
pub mod limits;
pub mod ranges;
pub mod request_split;
