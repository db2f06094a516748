//! All-reduce of a token block through a fixed workspace.
//!
//! The block is `[num_tokens, hidden_dim]`; the largest block that still uses the
//! workspace bounds the sweep.

use crate::bridge::payload::{
    dtype_bytes, dtype_text, number_value, text_value, ArgsPayload, DType, KernelKind, WireValue,
};
use crate::cache::CacheKind;
use crate::kernels::config::{
    fabric_text, field, fields_view, link_of, names_of, number_of, precision_of, text_of,
    ConfigField, ConfigTerm, Fabric, KernelConfig,
};
use crate::kernels::engine::{
    carries, number_at, whole_units, CellPayloads, KernelSpec, SweepCoords,
};
use crate::sweep::{at_most, cell_on_axes, chained, whole, Axis, Ratio, SweepGrid};
use crate::sweep::{never_descending, sorted, sorted_of, sorted_of_is, strictly_ascending};
use crate::text::{holds_text, text_contains};
use vstd::prelude::*;

verus! {

#[derive(Clone, Debug, PartialEq, Eq, Hash)]
pub struct AllReduceFusionKernelConfig {
    pub backends: Vec<&'static str>,
    pub gpu_name: String,
    pub num_gpus: u32,
    pub hidden_dim: u32,
    pub dtype: DType,
    pub fabric: Fabric,
}

impl KernelConfig for AllReduceFusionKernelConfig {
    const BACKENDS_FIELD: &'static str = "AllReduceFusionKernelConfig.backends";

    open spec fn candidates(&self) -> Seq<&'static str> {
        self.backends@
    }

    open spec fn gpu(&self) -> Seq<char> {
        self.gpu_name@
    }

    open spec fn compute(&self) -> Option<DType> {
        Some(self.dtype)
    }

    open spec fn kv(&self) -> Option<DType> {
        None
    }

    open spec fn description(&self) -> Seq<(Seq<char>, ConfigTerm)> {
        seq![
            ("backends"@, ConfigTerm::Names(self.backends@)),
            ("gpu_name"@, ConfigTerm::Text(self.gpu_name@)),
            ("num_gpus"@, ConfigTerm::Number(self.num_gpus as nat)),
            ("hidden_dim"@, ConfigTerm::Number(self.hidden_dim as nat)),
            ("dtype"@, ConfigTerm::Precision(self.dtype)),
            ("fabric"@, ConfigTerm::Link(self.fabric)),
        ]
    }

    fn backends(&self) -> (r: &Vec<&'static str>) {
        &self.backends
    }

    fn gpu_name(&self) -> (r: &str) {
        self.gpu_name.as_str()
    }

    fn compute_dtype(&self) -> (r: Option<DType>) {
        Some(self.dtype)
    }

    fn kv_dtype(&self) -> (r: Option<DType>) {
        None
    }

    fn describe_config(&self) -> (r: Vec<ConfigField>) {
        let r: Vec<ConfigField> = vec![
            field("backends", names_of(&self.backends)),
            field("gpu_name", text_of(self.gpu_name.as_str())),
            field("num_gpus", number_of(self.num_gpus)),
            field("hidden_dim", number_of(self.hidden_dim)),
            field("dtype", precision_of(self.dtype)),
            field("fabric", link_of(self.fabric)),
        ];
        assert(fields_view(r@) =~= self.description());
        r
    }
}

#[derive(Clone, Copy, Debug, PartialEq, Eq, Hash)]
pub struct AllReduceFusionKernelInput {
    pub num_tokens: u32,
}

impl SweepCoords for AllReduceFusionKernelInput {
    open spec fn well_shaped(&self) -> bool {
        true
    }

    open spec fn position(&self) -> Seq<Ratio> {
        seq![whole(self.num_tokens as int)]
    }

    open spec fn axis_names() -> Seq<Seq<char>> {
        seq!["num_tokens"@]
    }

    fn is_well_shaped(&self) -> (r: bool) {
        true
    }

    fn coords(&self) -> (r: Vec<Ratio>) {
        let r: Vec<Ratio> = vec![Ratio::from_whole(self.num_tokens)];
        assert(r@ =~= self.position());
        r
    }

    fn coord_field_names() -> (r: Vec<&'static str>) {
        let r: Vec<&'static str> = vec!["num_tokens"];
        assert(r@.map_values(|name: &'static str| name@) =~= Self::axis_names());
        r
    }
}

pub struct AllReduceFusionSpec;

impl KernelSpec for AllReduceFusionSpec {
    type Config = AllReduceFusionKernelConfig;

    type Input = AllReduceFusionKernelInput;

    const KIND: KernelKind = "all_reduce_fusion";

    open spec fn admits(config: AllReduceFusionKernelConfig) -> bool {
        fusion_ok(config)
    }

    open spec fn axes(config: AllReduceFusionKernelConfig, tokens: Seq<u32>) -> Seq<Seq<u32>> {
        seq![
            capped_axis(
                chained(seq![1u32, 2, 4, 8, 16, 17], tokens),
                fused_token_limit(config),
            ),
        ]
    }

    open spec fn units(axes: Seq<Seq<u32>>) -> Seq<u32> {
        whole_units(axes)
    }

    open spec fn table(backend: Seq<char>) -> CacheKind {
        CacheKind::Cache1DLinear
    }

    open spec fn masks() -> bool {
        false
    }

    open spec fn judges(config: AllReduceFusionKernelConfig, cell: Seq<u32>) -> bool {
        true
    }

    open spec fn infeasible(config: AllReduceFusionKernelConfig, cell: Seq<u32>) -> bool {
        false
    }

    open spec fn table_position(
        config: AllReduceFusionKernelConfig,
        input: AllReduceFusionKernelInput,
    ) -> Seq<Ratio> {
        input.position()
    }

    open spec fn answers(
        config: AllReduceFusionKernelConfig,
        input: AllReduceFusionKernelInput,
    ) -> bool {
        input.well_shaped()
    }

    fn profile_kind() -> (r: KernelKind) {
        Self::KIND
    }

    fn can_sweep(config: &AllReduceFusionKernelConfig) -> (r: bool) {
        can_fuse(config)
    }

    fn sweep_grid(config: &AllReduceFusionKernelConfig, tokens: &Vec<u32>) -> (r: SweepGrid) {
        let limit: u32 = Self::max_fused_tokens(config);
        let anchors: Vec<u32> = vec![1, 2, 4, 8, 16, 17];
        let a0: Vec<u32> = cap_axis(Axis::chain(anchors, tokens), limit);
        let r = SweepGrid::new(vec![a0]);
        proof {
            assert(r.points() =~= Self::axes(*config, tokens@));
            assert(r.scale() =~= whole_units(r.points()));
        }
        r
    }

    fn cache_kind(backend: &str) -> (r: CacheKind) {
        CacheKind::Cache1DLinear
    }

    fn has_mask() -> (r: bool) {
        false
    }

    fn is_infeasible(config: &AllReduceFusionKernelConfig, cell: &Vec<u32>) -> (r: bool) {
        false
    }

    fn can_answer(
        config: &AllReduceFusionKernelConfig,
        input: &AllReduceFusionKernelInput,
    ) -> (r: bool) {
        input.is_well_shaped()
    }

    fn cache_coords(
        config: &AllReduceFusionKernelConfig,
        input: &AllReduceFusionKernelInput,
    ) -> (r: Vec<Ratio>) {
        input.coords()
    }

    proof fn sweep_fits_table(
        config: AllReduceFusionKernelConfig,
        tokens: Seq<u32>,
        backend: Seq<char>,
    ) {
    }

    proof fn sweep_is_judged(config: AllReduceFusionKernelConfig, tokens: Seq<u32>, index: nat) {
    }

    proof fn queries_fit_table(
        config: AllReduceFusionKernelConfig,
        input: AllReduceFusionKernelInput,
        backend: Seq<char>,
    ) {
    }
}

impl CellPayloads for AllReduceFusionSpec {
    open spec fn covers(config: AllReduceFusionKernelConfig, cell: Seq<u32>) -> bool {
        cell.len() == 1
    }

    open spec fn enumerates(config: AllReduceFusionKernelConfig) -> bool {
        true
    }

    open spec fn fields(
        config: AllReduceFusionKernelConfig,
        cell: Seq<u32>,
        backend: Seq<char>,
    ) -> Map<Seq<char>, WireValue> {
        Map::<Seq<char>, WireValue>::empty()
            .insert("num_gpus"@, WireValue::Number(config.num_gpus as nat))
            .insert("num_tokens"@, WireValue::Number(cell[0] as nat))
            .insert("hidden_dim"@, WireValue::Number(config.hidden_dim as nat))
            .insert("dtype"@, WireValue::Text(dtype_text(config.dtype)))
            .insert("fabric"@, WireValue::Text(fabric_text(config.fabric)))
            .insert("backend"@, WireValue::Text(backend))
    }

    fn can_enumerate(config: &AllReduceFusionKernelConfig) -> (r: bool) {
        true
    }

    fn cell_payload(
        config: &AllReduceFusionKernelConfig,
        cell: &Vec<u32>,
        backend: &str,
    ) -> (r: ArgsPayload) {
        ArgsPayload::new()
            .with("num_gpus", number_value(config.num_gpus))
            .with("num_tokens", number_value(cell[0]))
            .with("hidden_dim", number_value(config.hidden_dim))
            .with("dtype", text_value(config.dtype.as_str()))
            .with("fabric", text_value(config.fabric.as_str()))
            .with("backend", text_value(backend))
    }

    proof fn sweep_is_covered(config: AllReduceFusionKernelConfig, tokens: Seq<u32>, index: nat) {
        cell_on_axes(Self::axes(config, tokens), index);
    }

    proof fn fields_name_backend(
        config: AllReduceFusionKernelConfig,
        cell: Seq<u32>,
        backend: Seq<char>,
    ) {
    }

    open spec fn describes(
        config: AllReduceFusionKernelConfig,
        fields: Map<Seq<char>, WireValue>,
        input: AllReduceFusionKernelInput,
    ) -> bool {
        number_at(fields, "num_tokens"@) == input.num_tokens
    }

    open spec fn occurs(config: AllReduceFusionKernelConfig, cell: Seq<u32>) -> bool {
        true
    }

    open spec fn kept_back() -> Set<Seq<char>> {
        set!["backends"@, "gpu_name"@]
    }

    proof fn payload_stands_at_its_cell(
        config: AllReduceFusionKernelConfig,
        tokens: Seq<u32>,
        index: nat,
        backend: Seq<char>,
        input: AllReduceFusionKernelInput,
    ) {
        cell_on_axes(Self::axes(config, tokens), index);
        reveal_strlit("num_tokens");
        reveal_strlit("hidden_dim");
        reveal_strlit("dtype");
        reveal_strlit("fabric");
        reveal_strlit("backend");
        assert("num_tokens"@.len() == 10 && "num_tokens"@[0] == 'n');
        assert("hidden_dim"@.len() == 10 && "hidden_dim"@[0] == 'h');
        assert("dtype"@.len() == 5);
        assert("fabric"@.len() == 6);
        assert("backend"@.len() == 7);
    }

    proof fn payload_carries_config(
        config: AllReduceFusionKernelConfig,
        cell: Seq<u32>,
        backend: Seq<char>,
        i: int,
    ) {
        reveal_strlit("num_gpus");
        reveal_strlit("num_tokens");
        reveal_strlit("hidden_dim");
        reveal_strlit("dtype");
        reveal_strlit("fabric");
        reveal_strlit("backend");
        assert("num_gpus"@.len() == 8);
        assert("num_tokens"@.len() == 10 && "num_tokens"@[0] == 'n');
        assert("hidden_dim"@.len() == 10 && "hidden_dim"@[0] == 'h');
        assert("dtype"@.len() == 5);
        assert("fabric"@.len() == 6);
        assert("backend"@.len() == 7);
        let fields = Self::fields(config, cell, backend);
        let terms = config.description();
        assert(carries(fields, terms[2]));
        assert(carries(fields, terms[3]));
        assert(carries(fields, terms[4]));
        assert(carries(fields, terms[5]));
    }

    proof fn described_alike_is_profiled_alike(
        a: AllReduceFusionKernelConfig,
        b: AllReduceFusionKernelConfig,
        tokens: Seq<u32>,
        cell: Seq<u32>,
        backend: Seq<char>,
    ) {
        let (x, y) = (a.description(), b.description());
        assert(x[0] == y[0]);
        assert(x[1] == y[1]);
        assert(x[2] == y[2]);
        assert(x[3] == y[3]);
        assert(x[4] == y[4]);
        assert(x[5] == y[5]);
    }
}

/// Workspace bytes for a group of GPUs.
pub open spec fn fusion_workspace(num_gpus: u32) -> int {
    if num_gpus == 2 {
        0x400_0000
    } else if num_gpus == 4 {
        0x200_0000
    } else {
        0x10_0000
    }
}

/// Whether the fused all-reduce exists for a configuration.
pub open spec fn fusion_ok(config: AllReduceFusionKernelConfig) -> bool {
    &&& holds_text(config.gpu_name@, "B200"@)
    &&& config.num_gpus == 2 || config.num_gpus == 4 || config.num_gpus == 8
    &&& config.hidden_dim > 0
}

/// Whether the fused kernel can run under a configuration.
pub fn can_fuse(config: &AllReduceFusionKernelConfig) -> (r: bool)
    ensures
        r == fusion_ok(*config),
{
    text_contains(config.gpu_name.as_str(), "B200") && (config.num_gpus == 2 || config.num_gpus == 4
        || config.num_gpus == 8) && config.hidden_dim > 0
}

/// The most tokens whose block fits the workspace.
pub open spec fn fused_token_limit(config: AllReduceFusionKernelConfig) -> int {
    fusion_workspace(config.num_gpus) / (config.hidden_dim * dtype_bytes(config.dtype))
}

/// The points up to `limit`, with `limit` itself added unless it is the last.
pub open spec fn capped_axis(points: Seq<u32>, limit: int) -> Seq<u32> {
    let kept = at_most(points, limit);
    if kept.len() > 0 && kept.last() == limit {
        kept
    } else {
        sorted_of(kept.push(limit as u32))
    }
}

/// The points up to `limit`, with `limit` itself added unless it is the last.
pub fn cap_axis(points: Vec<u32>, limit: u32) -> (r: Vec<u32>)
    ensures
        r@ == capped_axis(points@, limit as int),
{
    let mut kept: Vec<u32> = Axis::up_to(&points, limit);
    if kept.len() > 0 && kept[kept.len() - 1] == limit {
        return kept;
    }
    kept.push(limit);
    sorted(&kept)
}

/// A capped axis over ascending points holds the points below the cap and then the
/// cap itself.
pub proof fn capped_axis_ends_at_limit(points: Seq<u32>, limit: u32)
    requires
        strictly_ascending(points),
    ensures
        strictly_ascending(capped_axis(points, limit as int)),
        capped_axis(points, limit as int).len() > 0,
        capped_axis(points, limit as int).last() == limit,
        forall|x: u32|
            capped_axis(points, limit as int).contains(x) <==> (x == limit || (points.contains(x)
                && x <= limit)),
{
    let kept = at_most(points, limit as int);
    at_most_of_ascending(points, limit as int);
    let all = capped_axis(points, limit as int);
    if kept.len() > 0 && kept.last() == limit {
        assert(all == kept);
        assert(kept.contains(limit));
    } else {
        let joined = kept.push(limit);
        assert forall|i: int| 0 <= i < kept.len() implies kept[i] < limit by {
            let last = kept[kept.len() - 1];
            assert(kept.contains(kept[i]));
            assert(kept.contains(last));
            assert(points.contains(kept[i]) && points.contains(last));
            assert(kept[i] <= limit && last <= limit);
            assert(i < kept.len() - 1 ==> kept[i] < last);
            assert(kept.last() == last);
        }
        assert(never_descending(joined));
        sorted_of_is(joined, joined);
        assert(all == joined);
        assert forall|x: u32| all.contains(x) <==> (x == limit || (points.contains(x) && x <= limit))
            by {
            if all.contains(x) && x != limit {
                let k = choose|k: int| 0 <= k < all.len() && all[k] == x;
                assert(kept[k] == x);
                assert(kept.contains(x));
            }
            if x == limit {
                assert(all[all.len() - 1] == x);
            } else if points.contains(x) && x <= limit {
                assert(kept.contains(x));
                let k = choose|k: int| 0 <= k < kept.len() && kept[k] == x;
                assert(all[k] == x);
            }
        }
    }
}

/// Keeping the points up to a limit keeps their order and exactly those values.
pub proof fn at_most_of_ascending(points: Seq<u32>, limit: int)
    requires
        strictly_ascending(points),
    ensures
        strictly_ascending(at_most(points, limit)),
        forall|x: u32| at_most(points, limit).contains(x) <==> points.contains(x) && x <= limit,
    decreases points.len(),
{
    if points.len() > 0 {
        let front = points.drop_last();
        at_most_of_ascending(front, limit);
        let head = at_most(front, limit);
        let all = at_most(points, limit);
        assert forall|x: u32| all.contains(x) <==> points.contains(x) && x <= limit by {
            if all.contains(x) {
                let k = choose|k: int| 0 <= k < all.len() && all[k] == x;
                if k < head.len() {
                    assert(head[k] == x);
                    assert(head.contains(x));
                    assert(front.contains(x));
                    let l = choose|l: int| 0 <= l < front.len() && front[l] == x;
                    assert(points[l] == x);
                } else {
                    assert(points[points.len() - 1] == x);
                }
            }
            if points.contains(x) && x <= limit {
                let k = choose|k: int| 0 <= k < points.len() && points[k] == x;
                if k < front.len() {
                    assert(front[k] == x);
                    assert(front.contains(x));
                    assert(head.contains(x));
                    let l = choose|l: int| 0 <= l < head.len() && head[l] == x;
                    assert(all[l] == x);
                } else {
                    assert(all[all.len() - 1] == x);
                }
            }
        }
        assert forall|i: int, j: int| 0 <= i < j < all.len() implies all[i] < all[j] by {
            if j == head.len() {
                assert(head.contains(all[i]));
                assert(front.contains(all[i]));
                let l = choose|l: int| 0 <= l < front.len() && front[l] == all[i];
                assert(points[l] < points[points.len() - 1]);
            }
        }
    }
}

impl AllReduceFusionSpec {
    /// Workspace bytes for a group of GPUs.
    fn max_fused_bytes(num_gpus: u32) -> (r: u64)
        requires
            num_gpus == 2 || num_gpus == 4 || num_gpus == 8,
        ensures
            r == fusion_workspace(num_gpus),
    {
        let mib: u64 = if num_gpus == 2 {
            64
        } else if num_gpus == 4 {
            32
        } else {
            1
        };
        mib * 1024 * 1024
    }

    /// The most tokens whose block fits the workspace.
    pub fn max_fused_tokens(config: &AllReduceFusionKernelConfig) -> (r: u32)
        requires
            fusion_ok(*config),
        ensures
            r == fused_token_limit(*config),
    {
        let bytes: u64 = config.hidden_dim as u64;
        let size: u64 = config.dtype.size_bytes() as u64;
        assert(0 < bytes * size <= u32::MAX * 4) by (nonlinear_arith)
            requires
                0 < bytes <= u32::MAX,
                1 <= size <= 4,
        ;
        let limit: u64 = Self::max_fused_bytes(config.num_gpus);
        let per_token: u64 = bytes * size;
        let count: u64 = limit / per_token;
        assert(count <= limit) by (nonlinear_arith)
            requires
                count == limit / per_token,
                per_token > 0,
        ;
        count as u32
    }
}

/// The kernel computes in the precision that is described as `dtype` and names no precision
/// that it keeps its cache in.
pub proof fn precisions_are_described(config: AllReduceFusionKernelConfig)
    ensures
        config.compute() matches Some(precision) && config.description()[4] == (
            "dtype"@,
            ConfigTerm::Precision(precision),
        ),
        config.kv() is None,
{
}

} // verus!
