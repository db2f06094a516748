//! Decode top-k selection of the indexer.
//!
//! The table, mask and payload are those of the persistent top-k; the axes and the
//! profile identity are its own.

use crate::bridge::payload::{ArgsPayload, KernelKind, WireValue};
use crate::cache::CacheKind;
use crate::kernels::dsa_persistent_topk_decode::{
    DsaPersistentTopkDecodeKernelConfig, DsaPersistentTopkDecodeKernelInput,
    DsaPersistentTopkDecodeSpec,
};
use crate::kernels::engine::{whole_units, CellPayloads, KernelSpec, SweepCoords};
use crate::sweep::{cell_on_axes, Ratio, SweepGrid};
use vstd::prelude::*;

verus! {

pub open spec fn batch_points() -> Seq<u32> {
    seq![1u32, 2, 4, 8, 16, 32, 64, 128, 256]
}

pub fn batch_axis() -> (r: Vec<u32>)
    ensures
        r@ == batch_points(),
{
    vec![1, 2, 4, 8, 16, 32, 64, 128, 256]
}

pub open spec fn context_points() -> Seq<u32> {
    seq![
        0u32, 1, 128, 511, 512, 513, 1024, 2048, 4096, 8191, 8192, 8193, 16384, 32767, 32768,
        32769, 65536, 131072, 262144, 524288, 1048576,
    ]
}

pub fn context_axis() -> (r: Vec<u32>)
    ensures
        r@ == context_points(),
{
    vec![
        0, 1, 128, 511, 512, 513, 1024, 2048, 4096, 8191, 8192, 8193, 16384, 32767, 32768,
        32769, 65536, 131072, 262144, 524288, 1048576,
    ]
}

pub type DeepseekV4IndexerTopkDecodeKernelConfig = DsaPersistentTopkDecodeKernelConfig;

pub type DeepseekV4IndexerTopkDecodeKernelInput = DsaPersistentTopkDecodeKernelInput;

pub struct DeepseekV4IndexerTopkDecodeSpec;

impl KernelSpec for DeepseekV4IndexerTopkDecodeSpec {
    type Config = DeepseekV4IndexerTopkDecodeKernelConfig;

    type Input = DeepseekV4IndexerTopkDecodeKernelInput;

    const KIND: KernelKind = "deepseek_v4_indexer_topk_decode";

    open spec fn admits(config: DeepseekV4IndexerTopkDecodeKernelConfig) -> bool {
        true
    }

    open spec fn axes(
        config: DeepseekV4IndexerTopkDecodeKernelConfig,
        tokens: Seq<u32>,
    ) -> Seq<Seq<u32>> {
        seq![batch_points(), context_points()]
    }

    open spec fn units(axes: Seq<Seq<u32>>) -> Seq<u32> {
        whole_units(axes)
    }

    open spec fn table(backend: Seq<char>) -> CacheKind {
        DsaPersistentTopkDecodeSpec::table(backend)
    }

    open spec fn masks() -> bool {
        true
    }

    open spec fn judges(config: DeepseekV4IndexerTopkDecodeKernelConfig, cell: Seq<u32>) -> bool {
        DsaPersistentTopkDecodeSpec::judges(config, cell)
    }

    open spec fn infeasible(
        config: DeepseekV4IndexerTopkDecodeKernelConfig,
        cell: Seq<u32>,
    ) -> bool {
        DsaPersistentTopkDecodeSpec::infeasible(config, cell)
    }

    open spec fn table_position(
        config: DeepseekV4IndexerTopkDecodeKernelConfig,
        input: DeepseekV4IndexerTopkDecodeKernelInput,
    ) -> Seq<Ratio> {
        input.position()
    }

    open spec fn answers(
        config: DeepseekV4IndexerTopkDecodeKernelConfig,
        input: DeepseekV4IndexerTopkDecodeKernelInput,
    ) -> bool {
        input.well_shaped()
    }

    fn profile_kind() -> (r: KernelKind) {
        Self::KIND
    }

    fn can_sweep(config: &DeepseekV4IndexerTopkDecodeKernelConfig) -> (r: bool) {
        true
    }

    fn sweep_grid(
        config: &DeepseekV4IndexerTopkDecodeKernelConfig,
        tokens: &Vec<u32>,
    ) -> (r: SweepGrid) {
        let a0: Vec<u32> = batch_axis();
        let a1: Vec<u32> = context_axis();
        let r = SweepGrid::new(vec![a0, a1]);
        proof {
            assert(r.points() =~= Self::axes(*config, tokens@));
            assert(r.scale() =~= whole_units(r.points()));
        }
        r
    }

    fn cache_kind(backend: &str) -> (r: CacheKind) {
        DsaPersistentTopkDecodeSpec::cache_kind(backend)
    }

    fn has_mask() -> (r: bool) {
        true
    }

    fn is_infeasible(
        config: &DeepseekV4IndexerTopkDecodeKernelConfig,
        cell: &Vec<u32>,
    ) -> (r: bool) {
        DsaPersistentTopkDecodeSpec::is_infeasible(config, cell)
    }

    fn can_answer(
        config: &DeepseekV4IndexerTopkDecodeKernelConfig,
        input: &DeepseekV4IndexerTopkDecodeKernelInput,
    ) -> (r: bool) {
        input.is_well_shaped()
    }

    fn cache_coords(
        config: &DeepseekV4IndexerTopkDecodeKernelConfig,
        input: &DeepseekV4IndexerTopkDecodeKernelInput,
    ) -> (r: Vec<Ratio>) {
        input.coords()
    }

    proof fn sweep_fits_table(
        config: DeepseekV4IndexerTopkDecodeKernelConfig,
        tokens: Seq<u32>,
        backend: Seq<char>,
    ) {
    }

    proof fn sweep_is_judged(
        config: DeepseekV4IndexerTopkDecodeKernelConfig,
        tokens: Seq<u32>,
        index: nat,
    ) {
        cell_on_axes(Self::axes(config, tokens), index);
    }

    proof fn queries_fit_table(
        config: DeepseekV4IndexerTopkDecodeKernelConfig,
        input: DeepseekV4IndexerTopkDecodeKernelInput,
        backend: Seq<char>,
    ) {
    }
}

impl CellPayloads for DeepseekV4IndexerTopkDecodeSpec {
    open spec fn covers(config: DeepseekV4IndexerTopkDecodeKernelConfig, cell: Seq<u32>) -> bool {
        DsaPersistentTopkDecodeSpec::covers(config, cell)
    }

    open spec fn enumerates(config: DeepseekV4IndexerTopkDecodeKernelConfig) -> bool {
        true
    }

    open spec fn fields(
        config: DeepseekV4IndexerTopkDecodeKernelConfig,
        cell: Seq<u32>,
        backend: Seq<char>,
    ) -> Map<Seq<char>, WireValue> {
        DsaPersistentTopkDecodeSpec::fields(config, cell, backend)
    }

    fn can_enumerate(config: &DeepseekV4IndexerTopkDecodeKernelConfig) -> (r: bool) {
        true
    }

    fn cell_payload(
        config: &DeepseekV4IndexerTopkDecodeKernelConfig,
        cell: &Vec<u32>,
        backend: &str,
    ) -> (r: ArgsPayload) {
        DsaPersistentTopkDecodeSpec::cell_payload(config, cell, backend)
    }

    proof fn sweep_is_covered(
        config: DeepseekV4IndexerTopkDecodeKernelConfig,
        tokens: Seq<u32>,
        index: nat,
    ) {
        cell_on_axes(Self::axes(config, tokens), index);
    }

    proof fn fields_name_backend(
        config: DeepseekV4IndexerTopkDecodeKernelConfig,
        cell: Seq<u32>,
        backend: Seq<char>,
    ) {
    }

    open spec fn describes(
        config: DeepseekV4IndexerTopkDecodeKernelConfig,
        fields: Map<Seq<char>, WireValue>,
        input: DeepseekV4IndexerTopkDecodeKernelInput,
    ) -> bool {
        DsaPersistentTopkDecodeSpec::describes(config, fields, input)
    }

    open spec fn occurs(config: DeepseekV4IndexerTopkDecodeKernelConfig, cell: Seq<u32>) -> bool {
        DsaPersistentTopkDecodeSpec::occurs(config, cell)
    }

    open spec fn kept_back() -> Set<Seq<char>> {
        DsaPersistentTopkDecodeSpec::kept_back()
    }

    proof fn payload_stands_at_its_cell(
        config: DeepseekV4IndexerTopkDecodeKernelConfig,
        tokens: Seq<u32>,
        index: nat,
        backend: Seq<char>,
        input: DeepseekV4IndexerTopkDecodeKernelInput,
    ) {
        cell_on_axes(Self::axes(config, tokens), index);
        reveal_strlit("batch_size");
        reveal_strlit("context_len");
        reveal_strlit("next_n");
        reveal_strlit("max_model_len");
        reveal_strlit("top_k");
        reveal_strlit("logits_row_stride");
        reveal_strlit("logits_dtype");
        reveal_strlit("index_dtype");
        reveal_strlit("context_mode");
        reveal_strlit("backend");
        assert("batch_size"@.len() == 10);
        assert("context_len"@.len() == 11 && "context_len"@[0] == 'c');
        assert("next_n"@.len() == 6);
        assert("max_model_len"@.len() == 13);
        assert("top_k"@.len() == 5);
        assert("logits_row_stride"@.len() == 17);
        assert("logits_dtype"@.len() == 12);
        assert("index_dtype"@.len() == 11 && "index_dtype"@[0] == 'i');
        assert("context_mode"@.len() == 12);
        assert("backend"@.len() == 7);
    }

    proof fn payload_carries_config(
        config: DeepseekV4IndexerTopkDecodeKernelConfig,
        cell: Seq<u32>,
        backend: Seq<char>,
        i: int,
    ) {
        DsaPersistentTopkDecodeSpec::payload_carries_config(config, cell, backend, i);
    }

    proof fn described_alike_is_profiled_alike(
        a: DeepseekV4IndexerTopkDecodeKernelConfig,
        b: DeepseekV4IndexerTopkDecodeKernelConfig,
        tokens: Seq<u32>,
        cell: Seq<u32>,
        backend: Seq<char>,
    ) {
        DsaPersistentTopkDecodeSpec::described_alike_is_profiled_alike(a, b, tokens, cell, backend);
    }
}

} // verus!
