//! Decode logits of the indexer over a ragged, request-contiguous cache.
//!
//! The sweep, table and payload are those of the paged decode logits; only the profile
//! identity differs, because the cache layout does.

use crate::bridge::payload::{ArgsPayload, KernelKind, WireValue};
use crate::cache::CacheKind;
use crate::kernels::dsa_paged_mqa_logits_decode::{
    DsaPagedMqaLogitsDecodeKernelConfig, DsaPagedMqaLogitsDecodeKernelInput,
    DsaPagedMqaLogitsDecodeSpec,
};
use crate::kernels::engine::{CellPayloads, KernelSpec, SweepCoords};
use crate::sweep::{cell_on_axes, Ratio, SweepGrid};
use vstd::prelude::*;

verus! {

pub type DeepseekV4IndexerMqaLogitsDecodeKernelConfig = DsaPagedMqaLogitsDecodeKernelConfig;

pub type DeepseekV4IndexerMqaLogitsDecodeKernelInput = DsaPagedMqaLogitsDecodeKernelInput;

pub struct DeepseekV4IndexerMqaLogitsDecodeSpec;

impl KernelSpec for DeepseekV4IndexerMqaLogitsDecodeSpec {
    type Config = DeepseekV4IndexerMqaLogitsDecodeKernelConfig;

    type Input = DeepseekV4IndexerMqaLogitsDecodeKernelInput;

    const KIND: KernelKind = "deepseek_v4_indexer_mqa_logits_decode";

    open spec fn admits(config: DeepseekV4IndexerMqaLogitsDecodeKernelConfig) -> bool {
        DsaPagedMqaLogitsDecodeSpec::admits(config)
    }

    open spec fn axes(
        config: DeepseekV4IndexerMqaLogitsDecodeKernelConfig,
        tokens: Seq<u32>,
    ) -> Seq<Seq<u32>> {
        DsaPagedMqaLogitsDecodeSpec::axes(config, tokens)
    }

    open spec fn units(axes: Seq<Seq<u32>>) -> Seq<u32> {
        DsaPagedMqaLogitsDecodeSpec::units(axes)
    }

    open spec fn table(backend: Seq<char>) -> CacheKind {
        DsaPagedMqaLogitsDecodeSpec::table(backend)
    }

    open spec fn masks() -> bool {
        true
    }

    open spec fn judges(
        config: DeepseekV4IndexerMqaLogitsDecodeKernelConfig,
        cell: Seq<u32>,
    ) -> bool {
        DsaPagedMqaLogitsDecodeSpec::judges(config, cell)
    }

    open spec fn infeasible(
        config: DeepseekV4IndexerMqaLogitsDecodeKernelConfig,
        cell: Seq<u32>,
    ) -> bool {
        DsaPagedMqaLogitsDecodeSpec::infeasible(config, cell)
    }

    open spec fn table_position(
        config: DeepseekV4IndexerMqaLogitsDecodeKernelConfig,
        input: DeepseekV4IndexerMqaLogitsDecodeKernelInput,
    ) -> Seq<Ratio> {
        input.position()
    }

    open spec fn answers(
        config: DeepseekV4IndexerMqaLogitsDecodeKernelConfig,
        input: DeepseekV4IndexerMqaLogitsDecodeKernelInput,
    ) -> bool {
        input.well_shaped()
    }

    fn profile_kind() -> (r: KernelKind) {
        Self::KIND
    }

    fn can_sweep(config: &DeepseekV4IndexerMqaLogitsDecodeKernelConfig) -> (r: bool) {
        DsaPagedMqaLogitsDecodeSpec::can_sweep(config)
    }

    fn sweep_grid(
        config: &DeepseekV4IndexerMqaLogitsDecodeKernelConfig,
        tokens: &Vec<u32>,
    ) -> (r: SweepGrid) {
        DsaPagedMqaLogitsDecodeSpec::sweep_grid(config, tokens)
    }

    fn cache_kind(backend: &str) -> (r: CacheKind) {
        DsaPagedMqaLogitsDecodeSpec::cache_kind(backend)
    }

    fn has_mask() -> (r: bool) {
        true
    }

    fn is_infeasible(
        config: &DeepseekV4IndexerMqaLogitsDecodeKernelConfig,
        cell: &Vec<u32>,
    ) -> (r: bool) {
        DsaPagedMqaLogitsDecodeSpec::is_infeasible(config, cell)
    }

    fn can_answer(
        config: &DeepseekV4IndexerMqaLogitsDecodeKernelConfig,
        input: &DeepseekV4IndexerMqaLogitsDecodeKernelInput,
    ) -> (r: bool) {
        input.is_well_shaped()
    }

    fn cache_coords(
        config: &DeepseekV4IndexerMqaLogitsDecodeKernelConfig,
        input: &DeepseekV4IndexerMqaLogitsDecodeKernelInput,
    ) -> (r: Vec<Ratio>) {
        input.coords()
    }

    proof fn sweep_fits_table(
        config: DeepseekV4IndexerMqaLogitsDecodeKernelConfig,
        tokens: Seq<u32>,
        backend: Seq<char>,
    ) {
    }

    proof fn sweep_is_judged(
        config: DeepseekV4IndexerMqaLogitsDecodeKernelConfig,
        tokens: Seq<u32>,
        index: nat,
    ) {
        cell_on_axes(Self::axes(config, tokens), index);
    }

    proof fn queries_fit_table(
        config: DeepseekV4IndexerMqaLogitsDecodeKernelConfig,
        input: DeepseekV4IndexerMqaLogitsDecodeKernelInput,
        backend: Seq<char>,
    ) {
    }
}

impl CellPayloads for DeepseekV4IndexerMqaLogitsDecodeSpec {
    open spec fn covers(
        config: DeepseekV4IndexerMqaLogitsDecodeKernelConfig,
        cell: Seq<u32>,
    ) -> bool {
        DsaPagedMqaLogitsDecodeSpec::covers(config, cell)
    }

    open spec fn enumerates(config: DeepseekV4IndexerMqaLogitsDecodeKernelConfig) -> bool {
        true
    }

    open spec fn fields(
        config: DeepseekV4IndexerMqaLogitsDecodeKernelConfig,
        cell: Seq<u32>,
        backend: Seq<char>,
    ) -> Map<Seq<char>, WireValue> {
        DsaPagedMqaLogitsDecodeSpec::fields(config, cell, backend)
    }

    fn can_enumerate(config: &DeepseekV4IndexerMqaLogitsDecodeKernelConfig) -> (r: bool) {
        true
    }

    fn cell_payload(
        config: &DeepseekV4IndexerMqaLogitsDecodeKernelConfig,
        cell: &Vec<u32>,
        backend: &str,
    ) -> (r: ArgsPayload) {
        DsaPagedMqaLogitsDecodeSpec::cell_payload(config, cell, backend)
    }

    proof fn sweep_is_covered(
        config: DeepseekV4IndexerMqaLogitsDecodeKernelConfig,
        tokens: Seq<u32>,
        index: nat,
    ) {
        cell_on_axes(Self::axes(config, tokens), index);
    }

    proof fn fields_name_backend(
        config: DeepseekV4IndexerMqaLogitsDecodeKernelConfig,
        cell: Seq<u32>,
        backend: Seq<char>,
    ) {
    }

    open spec fn describes(
        config: DeepseekV4IndexerMqaLogitsDecodeKernelConfig,
        fields: Map<Seq<char>, WireValue>,
        input: DeepseekV4IndexerMqaLogitsDecodeKernelInput,
    ) -> bool {
        DsaPagedMqaLogitsDecodeSpec::describes(config, fields, input)
    }

    open spec fn occurs(
        config: DeepseekV4IndexerMqaLogitsDecodeKernelConfig,
        cell: Seq<u32>,
    ) -> bool {
        DsaPagedMqaLogitsDecodeSpec::occurs(config, cell)
    }

    open spec fn kept_back() -> Set<Seq<char>> {
        DsaPagedMqaLogitsDecodeSpec::kept_back()
    }

    proof fn payload_stands_at_its_cell(
        config: DeepseekV4IndexerMqaLogitsDecodeKernelConfig,
        tokens: Seq<u32>,
        index: nat,
        backend: Seq<char>,
        input: DeepseekV4IndexerMqaLogitsDecodeKernelInput,
    ) {
        DsaPagedMqaLogitsDecodeSpec::payload_stands_at_its_cell(
            config,
            tokens,
            index,
            backend,
            input,
        );
    }

    proof fn payload_carries_config(
        config: DeepseekV4IndexerMqaLogitsDecodeKernelConfig,
        cell: Seq<u32>,
        backend: Seq<char>,
        i: int,
    ) {
        DsaPagedMqaLogitsDecodeSpec::payload_carries_config(config, cell, backend, i);
    }

    proof fn described_alike_is_profiled_alike(
        a: DeepseekV4IndexerMqaLogitsDecodeKernelConfig,
        b: DeepseekV4IndexerMqaLogitsDecodeKernelConfig,
        tokens: Seq<u32>,
        cell: Seq<u32>,
        backend: Seq<char>,
    ) {
        DsaPagedMqaLogitsDecodeSpec::described_alike_is_profiled_alike(a, b, tokens, cell, backend);
    }
}

} // verus!
