//! Causal prefill attention with a cached prefix.
//!
//! A query is a prefix of `k` tokens and `q` appended ones. The table is built over
//! `A = k + q/2` and `B = q`, because the causal work is exactly `A * B`: bilinear
//! interpolation then carries no residual. Cells with `A < B/2` are no query's position
//! and are left out.

use crate::bridge::payload::{
    dtype_text, number_value, text_value, ArgsPayload, DType, KernelKind, WireValue,
};
use crate::cache::{CacheKind, Extrapolation};
use crate::dims::Dim;
use crate::kernels::config::{
    dimension_of, field, fields_view, names_of, precision_of, text_of, ConfigField, ConfigTerm,
    KernelConfig,
};
use crate::kernels::engine::{
    carries, number_at, standing_is_value, stands_at, stands_on_whole_units, whole_units,
    CellPayloads, KernelSpec, SweepCoords,
};
use crate::sweep::{
    arithmetic_points, cell_at, cell_on_axes, chained, pow2_points, whole, Axis, Ratio, SweepGrid,
};
use vstd::prelude::*;

verus! {

#[derive(Clone, Debug, PartialEq, Eq, Hash)]
pub struct FlashinferAttnPrefillKernelConfig {
    pub backends: Vec<&'static str>,
    pub gpu_name: String,
    pub num_qo_heads: Dim,
    pub num_kv_heads: Dim,
    pub head_dim: Dim,
    pub q_dtype: DType,
    pub kv_dtype: DType,
    pub o_dtype: DType,
}

impl KernelConfig for FlashinferAttnPrefillKernelConfig {
    const BACKENDS_FIELD: &'static str = "FlashinferAttnPrefillKernelConfig.backends";

    open spec fn candidates(&self) -> Seq<&'static str> {
        self.backends@
    }

    open spec fn gpu(&self) -> Seq<char> {
        self.gpu_name@
    }

    open spec fn compute(&self) -> Option<DType> {
        Some(self.q_dtype)
    }

    open spec fn kv(&self) -> Option<DType> {
        Some(self.kv_dtype)
    }

    open spec fn description(&self) -> Seq<(Seq<char>, ConfigTerm)> {
        seq![
            ("backends"@, ConfigTerm::Names(self.backends@)),
            ("gpu_name"@, ConfigTerm::Text(self.gpu_name@)),
            ("num_qo_heads"@, ConfigTerm::Dimension(self.num_qo_heads@)),
            ("num_kv_heads"@, ConfigTerm::Dimension(self.num_kv_heads@)),
            ("head_dim"@, ConfigTerm::Dimension(self.head_dim@)),
            ("q_dtype"@, ConfigTerm::Precision(self.q_dtype)),
            ("kv_dtype"@, ConfigTerm::Precision(self.kv_dtype)),
            ("o_dtype"@, ConfigTerm::Precision(self.o_dtype)),
        ]
    }

    fn backends(&self) -> (r: &Vec<&'static str>) {
        &self.backends
    }

    fn gpu_name(&self) -> (r: &str) {
        self.gpu_name.as_str()
    }

    fn compute_dtype(&self) -> (r: Option<DType>) {
        Some(self.q_dtype)
    }

    fn kv_dtype(&self) -> (r: Option<DType>) {
        Some(self.kv_dtype)
    }

    fn describe_config(&self) -> (r: Vec<ConfigField>) {
        let r: Vec<ConfigField> = vec![
            field("backends", names_of(&self.backends)),
            field("gpu_name", text_of(self.gpu_name.as_str())),
            field("num_qo_heads", dimension_of(&self.num_qo_heads)),
            field("num_kv_heads", dimension_of(&self.num_kv_heads)),
            field("head_dim", dimension_of(&self.head_dim)),
            field("q_dtype", precision_of(self.q_dtype)),
            field("kv_dtype", precision_of(self.kv_dtype)),
            field("o_dtype", precision_of(self.o_dtype)),
        ];
        assert(fields_view(r@) =~= self.description());
        r
    }
}

#[derive(Clone, Copy, Debug, PartialEq, Eq, Hash)]
pub struct FlashinferAttnPrefillKernelInput {
    pub prefix_len: u32,
    pub append_len: u32,
}

impl SweepCoords for FlashinferAttnPrefillKernelInput {
    open spec fn well_shaped(&self) -> bool {
        true
    }

    open spec fn position(&self) -> Seq<Ratio> {
        seq![
            (Ratio {
                numerator: (2 * self.prefix_len + self.append_len) as u64,
                denominator: 2,
            }),
            whole(self.append_len as int),
        ]
    }

    open spec fn axis_names() -> Seq<Seq<char>> {
        seq!["effective_kv_tokens"@, "append_len"@]
    }

    fn is_well_shaped(&self) -> (r: bool) {
        true
    }

    fn coords(&self) -> (r: Vec<Ratio>) {
        let doubled: u64 = 2 * (self.prefix_len as u64) + self.append_len as u64;
        let r: Vec<Ratio> = vec![
            Ratio { numerator: doubled, denominator: 2 },
            Ratio::from_whole(self.append_len),
        ];
        assert(r@ =~= self.position());
        r
    }

    fn coord_field_names() -> (r: Vec<&'static str>) {
        let r: Vec<&'static str> = vec!["effective_kv_tokens", "append_len"];
        assert(r@.map_values(|name: &'static str| name@) =~= Self::axis_names());
        r
    }
}

pub struct FlashinferAttnPrefillSpec;

impl KernelSpec for FlashinferAttnPrefillSpec {
    type Config = FlashinferAttnPrefillKernelConfig;

    type Input = FlashinferAttnPrefillKernelInput;

    const KIND: KernelKind = "flashinfer_attn_prefill";

    open spec fn admits(config: FlashinferAttnPrefillKernelConfig) -> bool {
        true
    }

    open spec fn axes(
        config: FlashinferAttnPrefillKernelConfig,
        tokens: Seq<u32>,
    ) -> Seq<Seq<u32>> {
        seq![
            pow2_points(6, 16),
            chained(
                chained(
                    chained(arithmetic_points(128, 1024, 128), arithmetic_points(1024, 2048, 256)),
                    arithmetic_points(2048, 4096, 512),
                ),
                pow2_points(7, 15),
            ),
        ]
    }

    open spec fn units(axes: Seq<Seq<u32>>) -> Seq<u32> {
        whole_units(axes)
    }

    open spec fn table(backend: Seq<char>) -> CacheKind {
        CacheKind::Cache2DLinear(Extrapolation::Product)
    }

    open spec fn masks() -> bool {
        true
    }

    open spec fn judges(config: FlashinferAttnPrefillKernelConfig, cell: Seq<u32>) -> bool {
        cell.len() == 2
    }

    open spec fn infeasible(config: FlashinferAttnPrefillKernelConfig, cell: Seq<u32>) -> bool {
        2 * cell[0] < cell[1]
    }

    open spec fn table_position(
        config: FlashinferAttnPrefillKernelConfig,
        input: FlashinferAttnPrefillKernelInput,
    ) -> Seq<Ratio> {
        input.position()
    }

    open spec fn answers(
        config: FlashinferAttnPrefillKernelConfig,
        input: FlashinferAttnPrefillKernelInput,
    ) -> bool {
        input.well_shaped()
    }

    fn profile_kind() -> (r: KernelKind) {
        Self::KIND
    }

    fn can_sweep(config: &FlashinferAttnPrefillKernelConfig) -> (r: bool) {
        true
    }

    fn sweep_grid(config: &FlashinferAttnPrefillKernelConfig, tokens: &Vec<u32>) -> (r: SweepGrid) {
        let low: Vec<u32> = Axis::arithmetic(128, 1024, 128);
        let mid: Vec<u32> = Axis::arithmetic(1024, 2048, 256);
        let high: Vec<u32> = Axis::arithmetic(2048, 4096, 512);
        let tail: Vec<u32> = Axis::pow2(7, 15);
        let a0: Vec<u32> = Axis::pow2(6, 16);
        let a1: Vec<u32> = Axis::chain(Axis::chain(Axis::chain(low, &mid), &high), &tail);
        let r = SweepGrid::new(vec![a0, a1]);
        proof {
            assert(r.points() =~= Self::axes(*config, tokens@));
            assert(r.scale() =~= whole_units(r.points()));
        }
        r
    }

    fn cache_kind(backend: &str) -> (r: CacheKind) {
        CacheKind::Cache2DLinear(Extrapolation::Product)
    }

    fn has_mask() -> (r: bool) {
        true
    }

    fn is_infeasible(config: &FlashinferAttnPrefillKernelConfig, cell: &Vec<u32>) -> (r: bool) {
        2 * (cell[0] as u64) < cell[1] as u64
    }

    fn can_answer(
        config: &FlashinferAttnPrefillKernelConfig,
        input: &FlashinferAttnPrefillKernelInput,
    ) -> (r: bool) {
        input.is_well_shaped()
    }

    fn cache_coords(
        config: &FlashinferAttnPrefillKernelConfig,
        input: &FlashinferAttnPrefillKernelInput,
    ) -> (r: Vec<Ratio>) {
        input.coords()
    }

    proof fn sweep_fits_table(
        config: FlashinferAttnPrefillKernelConfig,
        tokens: Seq<u32>,
        backend: Seq<char>,
    ) {
    }

    proof fn sweep_is_judged(
        config: FlashinferAttnPrefillKernelConfig,
        tokens: Seq<u32>,
        index: nat,
    ) {
        cell_on_axes(Self::axes(config, tokens), index);
    }

    proof fn queries_fit_table(
        config: FlashinferAttnPrefillKernelConfig,
        input: FlashinferAttnPrefillKernelInput,
        backend: Seq<char>,
    ) {
    }
}

impl CellPayloads for FlashinferAttnPrefillSpec {
    open spec fn covers(config: FlashinferAttnPrefillKernelConfig, cell: Seq<u32>) -> bool {
        cell.len() == 2
    }

    open spec fn enumerates(config: FlashinferAttnPrefillKernelConfig) -> bool {
        true
    }

    open spec fn fields(
        config: FlashinferAttnPrefillKernelConfig,
        cell: Seq<u32>,
        backend: Seq<char>,
    ) -> Map<Seq<char>, WireValue> {
        Map::<Seq<char>, WireValue>::empty()
            .insert("num_qo_heads"@, WireValue::Number(config.num_qo_heads@.fold() as nat))
            .insert("num_kv_heads"@, WireValue::Number(config.num_kv_heads@.fold() as nat))
            .insert("head_dim"@, WireValue::Number(config.head_dim@.fold() as nat))
            .insert("q_dtype"@, WireValue::Text(dtype_text(config.q_dtype)))
            .insert("kv_dtype"@, WireValue::Text(dtype_text(config.kv_dtype)))
            .insert("o_dtype"@, WireValue::Text(dtype_text(config.o_dtype)))
            .insert(
                "prefix_len"@,
                WireValue::Number(prefix_at(cell[0] as int, cell[1] as int) as nat),
            )
            .insert("append_len"@, WireValue::Number(cell[1] as nat))
            .insert("backend"@, WireValue::Text(backend))
    }

    fn can_enumerate(config: &FlashinferAttnPrefillKernelConfig) -> (r: bool) {
        true
    }

    fn cell_payload(
        config: &FlashinferAttnPrefillKernelConfig,
        cell: &Vec<u32>,
        backend: &str,
    ) -> (r: ArgsPayload) {
        ArgsPayload::new()
            .with("num_qo_heads", number_value(config.num_qo_heads.get()))
            .with("num_kv_heads", number_value(config.num_kv_heads.get()))
            .with("head_dim", number_value(config.head_dim.get()))
            .with("q_dtype", text_value(config.q_dtype.as_str()))
            .with("kv_dtype", text_value(config.kv_dtype.as_str()))
            .with("o_dtype", text_value(config.o_dtype.as_str()))
            .with("prefix_len", number_value(prefix_of(cell[0], cell[1])))
            .with("append_len", number_value(cell[1]))
            .with("backend", text_value(backend))
    }

    proof fn sweep_is_covered(
        config: FlashinferAttnPrefillKernelConfig,
        tokens: Seq<u32>,
        index: nat,
    ) {
        cell_on_axes(Self::axes(config, tokens), index);
    }

    proof fn fields_name_backend(
        config: FlashinferAttnPrefillKernelConfig,
        cell: Seq<u32>,
        backend: Seq<char>,
    ) {
    }

    open spec fn describes(
        config: FlashinferAttnPrefillKernelConfig,
        fields: Map<Seq<char>, WireValue>,
        input: FlashinferAttnPrefillKernelInput,
    ) -> bool {
        &&& number_at(fields, "prefix_len"@) == input.prefix_len
        &&& number_at(fields, "append_len"@) == input.append_len
    }

    open spec fn occurs(config: FlashinferAttnPrefillKernelConfig, cell: Seq<u32>) -> bool {
        cell[1] as int % 2 == 0
    }

    open spec fn kept_back() -> Set<Seq<char>> {
        set!["backends"@, "gpu_name"@]
    }

    proof fn payload_stands_at_its_cell(
        config: FlashinferAttnPrefillKernelConfig,
        tokens: Seq<u32>,
        index: nat,
        backend: Seq<char>,
        input: FlashinferAttnPrefillKernelInput,
    ) {
        cell_on_axes(Self::axes(config, tokens), index);
        reveal_strlit("prefix_len");
        reveal_strlit("append_len");
        reveal_strlit("backend");
        assert("prefix_len"@.len() == 10 && "prefix_len"@[0] == 'p');
        assert("append_len"@.len() == 10 && "append_len"@[0] == 'a');
        assert("backend"@.len() == 7);
        let cell = cell_at(Self::axes(config, tokens), index);
        let at = Self::table_position(config, input);
        assert(at[0].numerator == 2 * cell[0]);
        assert(cell[0] * at[0].denominator == 2 * cell[0]) by (nonlinear_arith)
            requires
                at[0].denominator == 2,
        ;
        assert(at[1] == whole(cell[1] as int));
        stands_on_whole_units(at, cell, Self::units(Self::axes(config, tokens)));
    }

    proof fn payload_carries_config(
        config: FlashinferAttnPrefillKernelConfig,
        cell: Seq<u32>,
        backend: Seq<char>,
        i: int,
    ) {
        reveal_strlit("num_qo_heads");
        reveal_strlit("num_kv_heads");
        reveal_strlit("head_dim");
        reveal_strlit("q_dtype");
        reveal_strlit("kv_dtype");
        reveal_strlit("o_dtype");
        reveal_strlit("prefix_len");
        reveal_strlit("append_len");
        reveal_strlit("backend");
        assert("num_qo_heads"@.len() == 12 && "num_qo_heads"@[4] == 'q');
        assert("num_kv_heads"@.len() == 12 && "num_kv_heads"@[4] == 'k');
        assert("head_dim"@.len() == 8 && "head_dim"@[0] == 'h');
        assert("q_dtype"@.len() == 7 && "q_dtype"@[0] == 'q');
        assert("kv_dtype"@.len() == 8 && "kv_dtype"@[0] == 'k');
        assert("o_dtype"@.len() == 7 && "o_dtype"@[0] == 'o');
        assert("prefix_len"@.len() == 10);
        assert("append_len"@.len() == 10);
        assert("backend"@.len() == 7 && "backend"@[0] == 'b');
        let fields = Self::fields(config, cell, backend);
        let terms = config.description();
        assert(carries(fields, terms[2]));
        assert(carries(fields, terms[3]));
        assert(carries(fields, terms[4]));
        assert(carries(fields, terms[5]));
        assert(carries(fields, terms[6]));
        assert(carries(fields, terms[7]));
    }

    proof fn described_alike_is_profiled_alike(
        a: FlashinferAttnPrefillKernelConfig,
        b: FlashinferAttnPrefillKernelConfig,
        tokens: Seq<u32>,
        cell: Seq<u32>,
        backend: Seq<char>,
    ) {
        let (x, y) = (a.description(), b.description());
        assert(x[0] == y[0]);
        assert(x[1] == y[1]);
        assert(x[2] == y[2]);
        assert(x[3] == y[3]);
        assert(x[4] == y[4]);
        assert(x[5] == y[5]);
        assert(x[6] == y[6]);
        assert(x[7] == y[7]);
    }
}

/// The prefix length of cell `(a, b)`: `a - b/2`, rounded up to a whole token, and
/// none where that is negative.
pub open spec fn prefix_at(a: int, b: int) -> int {
    if 2 * a <= b {
        0
    } else {
        (2 * a - b + 1) / 2
    }
}

fn prefix_of(a: u32, b: u32) -> (r: u32)
    ensures
        r == prefix_at(a as int, b as int),
{
    let doubled: u64 = 2 * (a as u64);
    if doubled <= b as u64 {
        0
    } else {
        ((doubled - b as u64 + 1) / 2) as u32
    }
}

/// A query lands on the cell whose payload asks for exactly that query.
pub proof fn payload_inverts_projection(prefix_len: u32, append_len: u32, a: u32)
    requires
        2 * a == 2 * prefix_len + append_len,
    ensures
        prefix_at(a as int, append_len as int) == prefix_len,
        !(2 * a < append_len),
{
}

/// A cell that is left out is the place of no launch: the middle of the appended rows is
/// at least half of them on.
pub proof fn every_launch_has_its_cell(
    config: FlashinferAttnPrefillKernelConfig,
    cell: Seq<u32>,
    input: FlashinferAttnPrefillKernelInput,
)
    requires
        cell.len() == 2,
        stands_at(input.position(), cell, seq![1, 1]),
    ensures
        !FlashinferAttnPrefillSpec::infeasible(config, cell),
{
    let at = input.position();
    standing_is_value(at, cell, seq![1, 1], 0);
    standing_is_value(at, cell, seq![1, 1], 1);
    let (point, halves) = (cell[0] as int, at[0].denominator as int);
    assert(point * halves == 2 * point) by (nonlinear_arith)
        requires
            halves == 2,
    ;
}

/// The kernel computes in the precision that is described as `q_dtype` and keeps its cache
/// in the precision that is described as `kv_dtype`.
pub proof fn precisions_are_described(config: FlashinferAttnPrefillKernelConfig)
    ensures
        config.compute() matches Some(precision) && config.description()[5] == (
            "q_dtype"@,
            ConfigTerm::Precision(precision),
        ),
        config.kv() matches Some(precision) && config.description()[6] == (
            "kv_dtype"@,
            ConfigTerm::Precision(precision),
        ),
{
}

} // verus!
