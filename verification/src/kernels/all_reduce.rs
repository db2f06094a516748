//! All-reduce of a message over a group of GPUs.
//!
//! The group size, interconnect and precision are fixed; the message size per rank is
//! swept from 4 KiB to 1 GiB in powers of two.

use crate::bridge::payload::{
    dtype_text, number_value, text_value, ArgsPayload, DType, KernelKind, WireValue,
};
use crate::cache::CacheKind;
use crate::kernels::config::{
    fabric_text, field, fields_view, link_of, names_of, number_of, precision_of, text_of,
    ConfigField, ConfigTerm, Fabric, KernelConfig,
};
use crate::kernels::engine::{
    carries, number_at, whole_units, CellPayloads, KernelSpec, SweepCoords,
};
use crate::sweep::{cell_on_axes, pow2_points, whole, Axis, Ratio, SweepGrid};
use vstd::prelude::*;

verus! {

#[derive(Clone, Debug, PartialEq, Eq, Hash)]
pub struct AllReduceKernelConfig {
    pub backends: Vec<&'static str>,
    pub gpu_name: String,
    pub num_gpus: u32,
    pub fabric: Fabric,
    pub dtype: DType,
}

impl KernelConfig for AllReduceKernelConfig {
    const BACKENDS_FIELD: &'static str = "AllReduceKernelConfig.backends";

    open spec fn candidates(&self) -> Seq<&'static str> {
        self.backends@
    }

    open spec fn gpu(&self) -> Seq<char> {
        self.gpu_name@
    }

    open spec fn compute(&self) -> Option<DType> {
        None
    }

    open spec fn kv(&self) -> Option<DType> {
        None
    }

    open spec fn description(&self) -> Seq<(Seq<char>, ConfigTerm)> {
        seq![
            ("backends"@, ConfigTerm::Names(self.backends@)),
            ("gpu_name"@, ConfigTerm::Text(self.gpu_name@)),
            ("num_gpus"@, ConfigTerm::Number(self.num_gpus as nat)),
            ("fabric"@, ConfigTerm::Link(self.fabric)),
            ("dtype"@, ConfigTerm::Precision(self.dtype)),
        ]
    }

    fn backends(&self) -> (r: &Vec<&'static str>) {
        &self.backends
    }

    fn gpu_name(&self) -> (r: &str) {
        self.gpu_name.as_str()
    }

    fn compute_dtype(&self) -> (r: Option<DType>) {
        None
    }

    fn kv_dtype(&self) -> (r: Option<DType>) {
        None
    }

    fn describe_config(&self) -> (r: Vec<ConfigField>) {
        let r: Vec<ConfigField> = vec![
            field("backends", names_of(&self.backends)),
            field("gpu_name", text_of(self.gpu_name.as_str())),
            field("num_gpus", number_of(self.num_gpus)),
            field("fabric", link_of(self.fabric)),
            field("dtype", precision_of(self.dtype)),
        ];
        assert(fields_view(r@) =~= self.description());
        r
    }
}

#[derive(Clone, Copy, Debug, PartialEq, Eq, Hash)]
pub struct AllReduceKernelInput {
    pub message_size_bytes: u64,
}

impl SweepCoords for AllReduceKernelInput {
    open spec fn well_shaped(&self) -> bool {
        true
    }

    open spec fn position(&self) -> Seq<Ratio> {
        seq![whole(self.message_size_bytes as int)]
    }

    open spec fn axis_names() -> Seq<Seq<char>> {
        seq!["message_size_bytes"@]
    }

    fn is_well_shaped(&self) -> (r: bool) {
        true
    }

    fn coords(&self) -> (r: Vec<Ratio>) {
        let r: Vec<Ratio> = vec![Ratio { numerator: self.message_size_bytes, denominator: 1 }];
        assert(r@ =~= self.position());
        r
    }

    fn coord_field_names() -> (r: Vec<&'static str>) {
        let r: Vec<&'static str> = vec!["message_size_bytes"];
        assert(r@.map_values(|name: &'static str| name@) =~= Self::axis_names());
        r
    }
}

pub struct AllReduceSpec;

impl KernelSpec for AllReduceSpec {
    type Config = AllReduceKernelConfig;

    type Input = AllReduceKernelInput;

    const KIND: KernelKind = "all_reduce";

    open spec fn admits(config: AllReduceKernelConfig) -> bool {
        true
    }

    open spec fn axes(config: AllReduceKernelConfig, tokens: Seq<u32>) -> Seq<Seq<u32>> {
        seq![pow2_points(12, 30)]
    }

    open spec fn units(axes: Seq<Seq<u32>>) -> Seq<u32> {
        whole_units(axes)
    }

    open spec fn table(backend: Seq<char>) -> CacheKind {
        CacheKind::Cache1DLinear
    }

    open spec fn masks() -> bool {
        false
    }

    open spec fn judges(config: AllReduceKernelConfig, cell: Seq<u32>) -> bool {
        true
    }

    open spec fn infeasible(config: AllReduceKernelConfig, cell: Seq<u32>) -> bool {
        false
    }

    open spec fn table_position(
        config: AllReduceKernelConfig,
        input: AllReduceKernelInput,
    ) -> Seq<Ratio> {
        input.position()
    }

    open spec fn answers(config: AllReduceKernelConfig, input: AllReduceKernelInput) -> bool {
        input.well_shaped()
    }

    fn profile_kind() -> (r: KernelKind) {
        Self::KIND
    }

    fn can_sweep(config: &AllReduceKernelConfig) -> (r: bool) {
        true
    }

    fn sweep_grid(config: &AllReduceKernelConfig, tokens: &Vec<u32>) -> (r: SweepGrid) {
        let a0: Vec<u32> = Axis::pow2(12, 30);
        let r = SweepGrid::new(vec![a0]);
        proof {
            assert(r.points() =~= Self::axes(*config, tokens@));
            assert(r.scale() =~= whole_units(r.points()));
        }
        r
    }

    fn cache_kind(backend: &str) -> (r: CacheKind) {
        CacheKind::Cache1DLinear
    }

    fn has_mask() -> (r: bool) {
        false
    }

    fn is_infeasible(config: &AllReduceKernelConfig, cell: &Vec<u32>) -> (r: bool) {
        false
    }

    fn can_answer(config: &AllReduceKernelConfig, input: &AllReduceKernelInput) -> (r: bool) {
        input.is_well_shaped()
    }

    fn cache_coords(
        config: &AllReduceKernelConfig,
        input: &AllReduceKernelInput,
    ) -> (r: Vec<Ratio>) {
        input.coords()
    }

    proof fn sweep_fits_table(config: AllReduceKernelConfig, tokens: Seq<u32>, backend: Seq<char>) {
    }

    proof fn sweep_is_judged(config: AllReduceKernelConfig, tokens: Seq<u32>, index: nat) {
    }

    proof fn queries_fit_table(
        config: AllReduceKernelConfig,
        input: AllReduceKernelInput,
        backend: Seq<char>,
    ) {
    }
}

impl CellPayloads for AllReduceSpec {
    open spec fn covers(config: AllReduceKernelConfig, cell: Seq<u32>) -> bool {
        cell.len() == 1
    }

    open spec fn enumerates(config: AllReduceKernelConfig) -> bool {
        true
    }

    open spec fn fields(config: AllReduceKernelConfig, cell: Seq<u32>, backend: Seq<char>) -> Map<
        Seq<char>,
        WireValue,
    > {
        Map::<Seq<char>, WireValue>::empty()
            .insert("num_gpus"@, WireValue::Number(config.num_gpus as nat))
            .insert("message_size_bytes"@, WireValue::Number(cell[0] as nat))
            .insert("dtype"@, WireValue::Text(dtype_text(config.dtype)))
            .insert("fabric"@, WireValue::Text(fabric_text(config.fabric)))
            .insert("backend"@, WireValue::Text(backend))
    }

    fn can_enumerate(config: &AllReduceKernelConfig) -> (r: bool) {
        true
    }

    fn cell_payload(
        config: &AllReduceKernelConfig,
        cell: &Vec<u32>,
        backend: &str,
    ) -> (r: ArgsPayload) {
        ArgsPayload::new()
            .with("num_gpus", number_value(config.num_gpus))
            .with("message_size_bytes", number_value(cell[0]))
            .with("dtype", text_value(config.dtype.as_str()))
            .with("fabric", text_value(config.fabric.as_str()))
            .with("backend", text_value(backend))
    }

    proof fn sweep_is_covered(config: AllReduceKernelConfig, tokens: Seq<u32>, index: nat) {
        cell_on_axes(Self::axes(config, tokens), index);
    }

    proof fn fields_name_backend(
        config: AllReduceKernelConfig,
        cell: Seq<u32>,
        backend: Seq<char>,
    ) {
    }

    open spec fn describes(
        config: AllReduceKernelConfig,
        fields: Map<Seq<char>, WireValue>,
        input: AllReduceKernelInput,
    ) -> bool {
        number_at(fields, "message_size_bytes"@) == input.message_size_bytes
    }

    open spec fn occurs(config: AllReduceKernelConfig, cell: Seq<u32>) -> bool {
        true
    }

    open spec fn kept_back() -> Set<Seq<char>> {
        set!["backends"@, "gpu_name"@]
    }

    proof fn payload_stands_at_its_cell(
        config: AllReduceKernelConfig,
        tokens: Seq<u32>,
        index: nat,
        backend: Seq<char>,
        input: AllReduceKernelInput,
    ) {
        cell_on_axes(Self::axes(config, tokens), index);
        reveal_strlit("message_size_bytes");
        reveal_strlit("dtype");
        reveal_strlit("fabric");
        reveal_strlit("backend");
        assert("message_size_bytes"@.len() == 18);
        assert("dtype"@.len() == 5);
        assert("fabric"@.len() == 6);
        assert("backend"@.len() == 7);
    }

    proof fn payload_carries_config(
        config: AllReduceKernelConfig,
        cell: Seq<u32>,
        backend: Seq<char>,
        i: int,
    ) {
        reveal_strlit("num_gpus");
        reveal_strlit("message_size_bytes");
        reveal_strlit("dtype");
        reveal_strlit("fabric");
        reveal_strlit("backend");
        assert("num_gpus"@.len() == 8);
        assert("message_size_bytes"@.len() == 18);
        assert("dtype"@.len() == 5);
        assert("fabric"@.len() == 6);
        assert("backend"@.len() == 7);
        let fields = Self::fields(config, cell, backend);
        let terms = config.description();
        assert(carries(fields, terms[2]));
        assert(carries(fields, terms[3]));
        assert(carries(fields, terms[4]));
    }

    proof fn described_alike_is_profiled_alike(
        a: AllReduceKernelConfig,
        b: AllReduceKernelConfig,
        tokens: Seq<u32>,
        cell: Seq<u32>,
        backend: Seq<char>,
    ) {
        let (x, y) = (a.description(), b.description());
        assert(x[0] == y[0]);
        assert(x[1] == y[1]);
        assert(x[2] == y[2]);
        assert(x[3] == y[3]);
        assert(x[4] == y[4]);
    }
}

/// The kernel names no precision that it computes in and names no precision that it keeps
/// its cache in.
pub proof fn precisions_are_described(config: AllReduceKernelConfig)
    ensures
        config.compute() is None,
        config.kv() is None,
{
}

} // verus!
