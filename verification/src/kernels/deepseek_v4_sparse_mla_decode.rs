//! Decode attention over a sliding window and an extra set of selected rows.
//!
//! The table is built over the batch size and the mean of valid rows per request.

use crate::bridge::payload::{
    dtype_text, number_value, text_value, ArgsPayload, DType, KernelKind, PayloadValue, WireValue,
};
use crate::cache::{CacheKind, Extrapolation};
use crate::dims::Dim;
use crate::expert_demand::{total, total_in_range, total_of_joined};
use crate::kernels::compact_counts::min_int;
use crate::kernels::config::{
    dimension_of, field, fields_view, names_of, number_of, precision_of, text_of, ConfigField,
    ConfigTerm, KernelConfig,
};
use crate::kernels::engine::{
    carries, numbers_at, stands_on_whole_units, whole_units, CellPayloads, KernelSpec, SweepCoords,
};
use crate::kernels::request_split::{copies, repeat_value, row_sum, total_of_copies};
use crate::sweep::{at_most, cell_at, cell_on_axes, whole, Axis, Ratio, SweepGrid};
use crate::text::text_eq;
use vstd::prelude::*;

verus! {

#[derive(Clone, Debug, PartialEq, Eq, Hash)]
pub struct DeepseekV4SparseMlaDecodeKernelConfig {
    pub backends: Vec<&'static str>,
    pub gpu_name: String,
    pub num_heads: Dim,
    pub num_kv_heads: Dim,
    pub head_dim: Dim,
    pub value_dim: Dim,
    pub swa_window: u32,
    pub extra_index_capacity: u32,
    pub compress_ratio: u32,
    pub q_dtype: DType,
    pub cache_dtype: DType,
    pub output_dtype: DType,
    pub planner_mode: String,
}

impl KernelConfig for DeepseekV4SparseMlaDecodeKernelConfig {
    const BACKENDS_FIELD: &'static str = "DeepseekV4SparseMlaDecodeKernelConfig.backends";

    open spec fn candidates(&self) -> Seq<&'static str> {
        self.backends@
    }

    open spec fn gpu(&self) -> Seq<char> {
        self.gpu_name@
    }

    open spec fn compute(&self) -> Option<DType> {
        Some(self.q_dtype)
    }

    open spec fn kv(&self) -> Option<DType> {
        Some(self.cache_dtype)
    }

    open spec fn description(&self) -> Seq<(Seq<char>, ConfigTerm)> {
        seq![
            ("backends"@, ConfigTerm::Names(self.backends@)),
            ("gpu_name"@, ConfigTerm::Text(self.gpu_name@)),
            ("num_heads"@, ConfigTerm::Dimension(self.num_heads@)),
            ("num_kv_heads"@, ConfigTerm::Dimension(self.num_kv_heads@)),
            ("head_dim"@, ConfigTerm::Dimension(self.head_dim@)),
            ("value_dim"@, ConfigTerm::Dimension(self.value_dim@)),
            ("swa_window"@, ConfigTerm::Number(self.swa_window as nat)),
            ("extra_index_capacity"@, ConfigTerm::Number(self.extra_index_capacity as nat)),
            ("compress_ratio"@, ConfigTerm::Number(self.compress_ratio as nat)),
            ("q_dtype"@, ConfigTerm::Precision(self.q_dtype)),
            ("cache_dtype"@, ConfigTerm::Precision(self.cache_dtype)),
            ("output_dtype"@, ConfigTerm::Precision(self.output_dtype)),
            ("planner_mode"@, ConfigTerm::Text(self.planner_mode@)),
        ]
    }

    fn backends(&self) -> (r: &Vec<&'static str>) {
        &self.backends
    }

    fn gpu_name(&self) -> (r: &str) {
        self.gpu_name.as_str()
    }

    fn compute_dtype(&self) -> (r: Option<DType>) {
        Some(self.q_dtype)
    }

    fn kv_dtype(&self) -> (r: Option<DType>) {
        Some(self.cache_dtype)
    }

    fn describe_config(&self) -> (r: Vec<ConfigField>) {
        let r: Vec<ConfigField> = vec![
            field("backends", names_of(&self.backends)),
            field("gpu_name", text_of(self.gpu_name.as_str())),
            field("num_heads", dimension_of(&self.num_heads)),
            field("num_kv_heads", dimension_of(&self.num_kv_heads)),
            field("head_dim", dimension_of(&self.head_dim)),
            field("value_dim", dimension_of(&self.value_dim)),
            field("swa_window", number_of(self.swa_window)),
            field("extra_index_capacity", number_of(self.extra_index_capacity)),
            field("compress_ratio", number_of(self.compress_ratio)),
            field("q_dtype", precision_of(self.q_dtype)),
            field("cache_dtype", precision_of(self.cache_dtype)),
            field("output_dtype", precision_of(self.output_dtype)),
            field("planner_mode", text_of(self.planner_mode.as_str())),
        ];
        assert(fields_view(r@) =~= self.description());
        r
    }
}

/// The valid rows of every request, in the window and beyond it.
#[derive(Clone, Debug, PartialEq, Eq, Hash)]
pub struct DeepseekV4SparseMlaDecodeKernelInput {
    pub swa_valid_counts: Vec<u32>,
    pub extra_valid_counts: Vec<u32>,
}

impl SweepCoords for DeepseekV4SparseMlaDecodeKernelInput {
    open spec fn well_shaped(&self) -> bool {
        0 < self.swa_valid_counts@.len() <= 256 && self.swa_valid_counts@.len()
            == self.extra_valid_counts@.len()
    }

    open spec fn position(&self) -> Seq<Ratio> {
        seq![
            whole(self.swa_valid_counts@.len() as int),
            (Ratio {
                numerator: (total(self.swa_valid_counts@) + total(
                    self.extra_valid_counts@,
                )) as u64,
                denominator: self.swa_valid_counts@.len() as u64,
            }),
        ]
    }

    open spec fn axis_names() -> Seq<Seq<char>> {
        seq!["batch_size"@, "mean_valid_rows"@]
    }

    fn is_well_shaped(&self) -> (r: bool) {
        let requests: usize = self.swa_valid_counts.len();
        0 < requests && requests <= 256 && requests == self.extra_valid_counts.len()
    }

    fn coords(&self) -> (r: Vec<Ratio>) {
        let rows: u64 = row_sum(&self.swa_valid_counts) + row_sum(&self.extra_valid_counts);
        let batch: u64 = self.swa_valid_counts.len() as u64;
        let r: Vec<Ratio> = vec![
            Ratio::from_whole(batch as u32),
            Ratio { numerator: rows, denominator: batch },
        ];
        assert(r@ =~= self.position());
        r
    }

    fn coord_field_names() -> (r: Vec<&'static str>) {
        let r: Vec<&'static str> = vec!["batch_size", "mean_valid_rows"];
        assert(r@.map_values(|name: &'static str| name@) =~= Self::axis_names());
        r
    }
}

/// The swept totals of valid rows per request.
pub open spec fn valid_points(config: DeepseekV4SparseMlaDecodeKernelConfig) -> Seq<u32> {
    if config.compress_ratio == 1 {
        seq![1u32, 32, 64, 96, 128]
    } else if config.compress_ratio == 4 {
        seq![128u32, 160, 192, 256, 384, 512, 640]
    } else {
        at_most(
            seq![1u32, 64, 128, 160, 192, 256, 384, 512, 640],
            128 + config.extra_index_capacity,
        )
    }
}

/// Whether the extra index fits the compression ratio, and the planner mode exists.
pub open spec fn decode_config_ok(config: DeepseekV4SparseMlaDecodeKernelConfig) -> bool {
    &&& config.compress_ratio == 1 && config.extra_index_capacity == 0 || config.compress_ratio == 4
        && config.extra_index_capacity == 512 || config.compress_ratio == 128 && 128
        <= config.extra_index_capacity <= 8192 && config.extra_index_capacity % 128 == 0
    &&& config.planner_mode@ == "planned"@ || config.planner_mode@ == "reused"@
}

/// Whether the extra index fits the compression ratio, and the planner mode exists.
pub fn validate_config(config: &DeepseekV4SparseMlaDecodeKernelConfig) -> (r: bool)
    ensures
        r == decode_config_ok(*config),
{
    let capacity: u32 = config.extra_index_capacity;
    let ratio: u32 = config.compress_ratio;
    let fits: bool = ratio == 1 && capacity == 0 || ratio == 4 && capacity == 512 || ratio == 128
        && 128 <= capacity && capacity <= 8192 && capacity % 128 == 0;
    fits && (text_eq(config.planner_mode.as_str(), "planned") || text_eq(
        config.planner_mode.as_str(),
        "reused",
    ))
}

fn valid_axis(config: &DeepseekV4SparseMlaDecodeKernelConfig) -> (r: Vec<u32>)
    requires
        decode_config_ok(*config),
    ensures
        r@ == valid_points(*config),
{
    if config.compress_ratio == 1 {
        vec![1, 32, 64, 96, 128]
    } else if config.compress_ratio == 4 {
        vec![128, 160, 192, 256, 384, 512, 640]
    } else {
        let points: Vec<u32> = vec![1, 64, 128, 160, 192, 256, 384, 512, 640];
        assert(points@ =~= seq![1u32, 64, 128, 160, 192, 256, 384, 512, 640]);
        Axis::up_to(&points, 128 + config.extra_index_capacity)
    }
}

/// The window rows of a request with `valid` valid rows.
pub open spec fn window_rows(valid: int) -> int {
    min_int(valid, 128)
}

/// The rows beyond the window.
pub open spec fn extra_rows(valid: int, compress_ratio: int) -> int {
    if compress_ratio == 1 {
        0
    } else {
        valid - window_rows(valid)
    }
}

/// The valid rows of `batch_size` equal requests: window rows first, at most 128 of
/// them, and the rest beyond the window unless the ratio keeps no extra rows.
pub fn canonical_counts(batch_size: u32, total_valid_per_row: u32, compress_ratio: u32) -> (r: (
    Vec<u32>,
    Vec<u32>,
))
    ensures
        r.0@ == copies(window_rows(total_valid_per_row as int), batch_size as int),
        r.1@ == copies(
            extra_rows(total_valid_per_row as int, compress_ratio as int),
            batch_size as int,
        ),
{
    let window: u32 = if total_valid_per_row <= 128 {
        total_valid_per_row
    } else {
        128
    };
    let extra: u32 = if compress_ratio == 1 {
        0
    } else {
        total_valid_per_row - window
    };
    (repeat_value(window, batch_size), repeat_value(extra, batch_size))
}

/// The requests of a cell hold its number of valid rows, unless a ratio without
/// extra rows cuts them at the window.
pub proof fn canonical_counts_project_back(batch: int, valid: int, compress_ratio: int)
    requires
        1 <= batch <= 256,
        0 <= valid <= u32::MAX,
        compress_ratio != 1 || valid <= 128,
    ensures
        total(copies(window_rows(valid), batch)) + total(
            copies(extra_rows(valid, compress_ratio), batch),
        ) == valid * batch,
{
    total_of_copies(window_rows(valid), batch);
    total_of_copies(extra_rows(valid, compress_ratio), batch);
    let w = window_rows(valid);
    let e = extra_rows(valid, compress_ratio);
    assert(w * batch + e * batch == (w + e) * batch) by (nonlinear_arith);
}

pub struct DeepseekV4SparseMlaDecodeSpec;

impl KernelSpec for DeepseekV4SparseMlaDecodeSpec {
    type Config = DeepseekV4SparseMlaDecodeKernelConfig;

    type Input = DeepseekV4SparseMlaDecodeKernelInput;

    const KIND: KernelKind = "deepseek_v4_sparse_mla_decode";

    open spec fn admits(config: DeepseekV4SparseMlaDecodeKernelConfig) -> bool {
        decode_config_ok(config)
    }

    open spec fn axes(
        config: DeepseekV4SparseMlaDecodeKernelConfig,
        tokens: Seq<u32>,
    ) -> Seq<Seq<u32>> {
        seq![seq![1u32, 2, 4, 8, 16, 32, 64, 128, 256], valid_points(config)]
    }

    open spec fn units(axes: Seq<Seq<u32>>) -> Seq<u32> {
        whole_units(axes)
    }

    open spec fn table(backend: Seq<char>) -> CacheKind {
        CacheKind::Cache2DLinear(Extrapolation::Product)
    }

    open spec fn masks() -> bool {
        false
    }

    open spec fn judges(config: DeepseekV4SparseMlaDecodeKernelConfig, cell: Seq<u32>) -> bool {
        true
    }

    open spec fn infeasible(config: DeepseekV4SparseMlaDecodeKernelConfig, cell: Seq<u32>) -> bool {
        false
    }

    open spec fn table_position(
        config: DeepseekV4SparseMlaDecodeKernelConfig,
        input: DeepseekV4SparseMlaDecodeKernelInput,
    ) -> Seq<Ratio> {
        input.position()
    }

    open spec fn answers(
        config: DeepseekV4SparseMlaDecodeKernelConfig,
        input: DeepseekV4SparseMlaDecodeKernelInput,
    ) -> bool {
        input.well_shaped()
    }

    fn profile_kind() -> (r: KernelKind) {
        Self::KIND
    }

    fn can_sweep(config: &DeepseekV4SparseMlaDecodeKernelConfig) -> (r: bool) {
        validate_config(config)
    }

    fn sweep_grid(
        config: &DeepseekV4SparseMlaDecodeKernelConfig,
        tokens: &Vec<u32>,
    ) -> (r: SweepGrid) {
        let a0: Vec<u32> = Axis::values(vec![1, 2, 4, 8, 16, 32, 64, 128, 256]);
        let a1: Vec<u32> = valid_axis(config);
        let r = SweepGrid::new(vec![a0, a1]);
        proof {
            assert(r.points() =~= Self::axes(*config, tokens@));
            assert(r.scale() =~= whole_units(r.points()));
        }
        r
    }

    fn cache_kind(backend: &str) -> (r: CacheKind) {
        CacheKind::Cache2DLinear(Extrapolation::Product)
    }

    fn has_mask() -> (r: bool) {
        false
    }

    fn is_infeasible(config: &DeepseekV4SparseMlaDecodeKernelConfig, cell: &Vec<u32>) -> (r: bool) {
        false
    }

    fn can_answer(
        config: &DeepseekV4SparseMlaDecodeKernelConfig,
        input: &DeepseekV4SparseMlaDecodeKernelInput,
    ) -> (r: bool) {
        input.is_well_shaped()
    }

    fn cache_coords(
        config: &DeepseekV4SparseMlaDecodeKernelConfig,
        input: &DeepseekV4SparseMlaDecodeKernelInput,
    ) -> (r: Vec<Ratio>) {
        input.coords()
    }

    proof fn sweep_fits_table(
        config: DeepseekV4SparseMlaDecodeKernelConfig,
        tokens: Seq<u32>,
        backend: Seq<char>,
    ) {
    }

    proof fn sweep_is_judged(
        config: DeepseekV4SparseMlaDecodeKernelConfig,
        tokens: Seq<u32>,
        index: nat,
    ) {
    }

    proof fn queries_fit_table(
        config: DeepseekV4SparseMlaDecodeKernelConfig,
        input: DeepseekV4SparseMlaDecodeKernelInput,
        backend: Seq<char>,
    ) {
    }
}

impl CellPayloads for DeepseekV4SparseMlaDecodeSpec {
    open spec fn covers(config: DeepseekV4SparseMlaDecodeKernelConfig, cell: Seq<u32>) -> bool {
        cell.len() == 2
    }

    open spec fn enumerates(config: DeepseekV4SparseMlaDecodeKernelConfig) -> bool {
        true
    }

    open spec fn fields(
        config: DeepseekV4SparseMlaDecodeKernelConfig,
        cell: Seq<u32>,
        backend: Seq<char>,
    ) -> Map<Seq<char>, WireValue> {
        Map::<Seq<char>, WireValue>::empty()
            .insert(
                "swa_valid_counts"@,
                WireValue::Numbers(copies(window_rows(cell[1] as int), cell[0] as int)),
            )
            .insert("extra_valid_counts"@, WireValue::Numbers(copies(
                    extra_rows(cell[1] as int, config.compress_ratio as int),
                    cell[0] as int,
                )))
            .insert("num_heads"@, WireValue::Number(config.num_heads@.fold() as nat))
            .insert("num_kv_heads"@, WireValue::Number(config.num_kv_heads@.fold() as nat))
            .insert("head_dim"@, WireValue::Number(config.head_dim@.fold() as nat))
            .insert("value_dim"@, WireValue::Number(config.value_dim@.fold() as nat))
            .insert("swa_window"@, WireValue::Number(config.swa_window as nat))
            .insert("extra_index_capacity"@, WireValue::Number(config.extra_index_capacity as nat))
            .insert("compress_ratio"@, WireValue::Number(config.compress_ratio as nat))
            .insert("q_dtype"@, WireValue::Text(dtype_text(config.q_dtype)))
            .insert("cache_dtype"@, WireValue::Text(dtype_text(config.cache_dtype)))
            .insert("output_dtype"@, WireValue::Text(dtype_text(config.output_dtype)))
            .insert("planner_mode"@, WireValue::Text(config.planner_mode@))
            .insert("backend"@, WireValue::Text(backend))
    }

    fn can_enumerate(config: &DeepseekV4SparseMlaDecodeKernelConfig) -> (r: bool) {
        true
    }

    fn cell_payload(
        config: &DeepseekV4SparseMlaDecodeKernelConfig,
        cell: &Vec<u32>,
        backend: &str,
    ) -> (r: ArgsPayload) {
        let (window, extra) = canonical_counts(cell[0], cell[1], config.compress_ratio);
        ArgsPayload::new()
            .with("swa_valid_counts", PayloadValue::Numbers(window))
            .with("extra_valid_counts", PayloadValue::Numbers(extra))
            .with("num_heads", number_value(config.num_heads.get()))
            .with("num_kv_heads", number_value(config.num_kv_heads.get()))
            .with("head_dim", number_value(config.head_dim.get()))
            .with("value_dim", number_value(config.value_dim.get()))
            .with("swa_window", number_value(config.swa_window))
            .with("extra_index_capacity", number_value(config.extra_index_capacity))
            .with("compress_ratio", number_value(config.compress_ratio))
            .with("q_dtype", text_value(config.q_dtype.as_str()))
            .with("cache_dtype", text_value(config.cache_dtype.as_str()))
            .with("output_dtype", text_value(config.output_dtype.as_str()))
            .with("planner_mode", text_value(config.planner_mode.as_str()))
            .with("backend", text_value(backend))
    }

    proof fn sweep_is_covered(
        config: DeepseekV4SparseMlaDecodeKernelConfig,
        tokens: Seq<u32>,
        index: nat,
    ) {
        cell_on_axes(Self::axes(config, tokens), index);
    }

    proof fn fields_name_backend(
        config: DeepseekV4SparseMlaDecodeKernelConfig,
        cell: Seq<u32>,
        backend: Seq<char>,
    ) {
    }

    open spec fn describes(
        config: DeepseekV4SparseMlaDecodeKernelConfig,
        fields: Map<Seq<char>, WireValue>,
        input: DeepseekV4SparseMlaDecodeKernelInput,
    ) -> bool {
        &&& numbers_at(fields, "swa_valid_counts"@) == input.swa_valid_counts@
        &&& numbers_at(fields, "extra_valid_counts"@) == input.extra_valid_counts@
    }

    open spec fn occurs(config: DeepseekV4SparseMlaDecodeKernelConfig, cell: Seq<u32>) -> bool {
        true
    }

    open spec fn kept_back() -> Set<Seq<char>> {
        set!["backends"@, "gpu_name"@]
    }

    proof fn payload_stands_at_its_cell(
        config: DeepseekV4SparseMlaDecodeKernelConfig,
        tokens: Seq<u32>,
        index: nat,
        backend: Seq<char>,
        input: DeepseekV4SparseMlaDecodeKernelInput,
    ) {
        cell_on_axes(Self::axes(config, tokens), index);
        reveal_strlit("swa_valid_counts");
        reveal_strlit("extra_valid_counts");
        reveal_strlit("num_heads");
        reveal_strlit("num_kv_heads");
        reveal_strlit("head_dim");
        reveal_strlit("value_dim");
        reveal_strlit("swa_window");
        reveal_strlit("extra_index_capacity");
        reveal_strlit("compress_ratio");
        reveal_strlit("q_dtype");
        reveal_strlit("cache_dtype");
        reveal_strlit("output_dtype");
        reveal_strlit("planner_mode");
        reveal_strlit("backend");
        assert("swa_valid_counts"@.len() == 16);
        assert("extra_valid_counts"@.len() == 18);
        assert("num_heads"@.len() == 9);
        assert("num_kv_heads"@.len() == 12);
        assert("head_dim"@.len() == 8);
        assert("value_dim"@.len() == 9);
        assert("swa_window"@.len() == 10);
        assert("extra_index_capacity"@.len() == 20);
        assert("compress_ratio"@.len() == 14);
        assert("q_dtype"@.len() == 7);
        assert("cache_dtype"@.len() == 11);
        assert("output_dtype"@.len() == 12);
        assert("planner_mode"@.len() == 12);
        assert("backend"@.len() == 7);
        let cell = cell_at(Self::axes(config, tokens), index);
        let batch = cell[0] as int;
        let valid = cell[1] as int;
        assert(Self::axes(config, tokens)[0].contains(cell[0]));
        assert(Self::axes(config, tokens)[1].contains(cell[1]));
        assert(1 <= batch <= 256);
        assert(config.compress_ratio != 1 || valid <= 128);
        canonical_counts_project_back(batch, valid, config.compress_ratio as int);
        assert(0 <= valid * batch <= u64::MAX) by (nonlinear_arith)
            requires
                0 <= valid <= u32::MAX,
                1 <= batch <= 256,
        ;
        let at = Self::table_position(config, input);
        assert(at[0] == whole(cell[0] as int));
        assert(at[1].numerator == cell[1] * at[1].denominator);
        stands_on_whole_units(at, cell, Self::units(Self::axes(config, tokens)));
    }

    proof fn payload_carries_config(
        config: DeepseekV4SparseMlaDecodeKernelConfig,
        cell: Seq<u32>,
        backend: Seq<char>,
        i: int,
    ) {
        reveal_strlit("num_heads");
        reveal_strlit("num_kv_heads");
        reveal_strlit("head_dim");
        reveal_strlit("value_dim");
        reveal_strlit("swa_window");
        reveal_strlit("extra_index_capacity");
        reveal_strlit("compress_ratio");
        reveal_strlit("q_dtype");
        reveal_strlit("cache_dtype");
        reveal_strlit("output_dtype");
        reveal_strlit("planner_mode");
        reveal_strlit("backend");
        assert("num_heads"@.len() == 9 && "num_heads"@[0] == 'n');
        assert("num_kv_heads"@.len() == 12 && "num_kv_heads"@[0] == 'n');
        assert("head_dim"@.len() == 8);
        assert("value_dim"@.len() == 9 && "value_dim"@[0] == 'v');
        assert("swa_window"@.len() == 10);
        assert("extra_index_capacity"@.len() == 20);
        assert("compress_ratio"@.len() == 14);
        assert("q_dtype"@.len() == 7 && "q_dtype"@[0] == 'q');
        assert("cache_dtype"@.len() == 11);
        assert("output_dtype"@.len() == 12 && "output_dtype"@[0] == 'o');
        assert("planner_mode"@.len() == 12 && "planner_mode"@[0] == 'p');
        assert("backend"@.len() == 7 && "backend"@[0] == 'b');
        let fields = Self::fields(config, cell, backend);
        let terms = config.description();
        assert(carries(fields, terms[2]));
        assert(carries(fields, terms[3]));
        assert(carries(fields, terms[4]));
        assert(carries(fields, terms[5]));
        assert(carries(fields, terms[6]));
        assert(carries(fields, terms[7]));
        assert(carries(fields, terms[8]));
        assert(carries(fields, terms[9]));
        assert(carries(fields, terms[10]));
        assert(carries(fields, terms[11]));
        assert(carries(fields, terms[12]));
    }

    proof fn described_alike_is_profiled_alike(
        a: DeepseekV4SparseMlaDecodeKernelConfig,
        b: DeepseekV4SparseMlaDecodeKernelConfig,
        tokens: Seq<u32>,
        cell: Seq<u32>,
        backend: Seq<char>,
    ) {
        let (x, y) = (a.description(), b.description());
        assert(x[0] == y[0]);
        assert(x[1] == y[1]);
        assert(x[2] == y[2]);
        assert(x[3] == y[3]);
        assert(x[4] == y[4]);
        assert(x[5] == y[5]);
        assert(x[6] == y[6]);
        assert(x[7] == y[7]);
        assert(x[8] == y[8]);
        assert(x[9] == y[9]);
        assert(x[10] == y[10]);
        assert(x[11] == y[11]);
        assert(x[12] == y[12]);
    }
}

/// Two batches taken together have the requests of both, and a mean of valid rows that
/// weighs each by its requests; window rows and rows beyond it count alike.
pub proof fn joined_batches_add_up(
    a: DeepseekV4SparseMlaDecodeKernelInput,
    b: DeepseekV4SparseMlaDecodeKernelInput,
    both: DeepseekV4SparseMlaDecodeKernelInput,
)
    requires
        a.well_shaped(),
        b.well_shaped(),
        both.well_shaped(),
        both.swa_valid_counts@ == a.swa_valid_counts@ + b.swa_valid_counts@,
        both.extra_valid_counts@ == a.extra_valid_counts@ + b.extra_valid_counts@,
    ensures
        both.position()[0].numerator == a.position()[0].numerator + b.position()[0].numerator,
        both.position()[1].numerator == a.position()[1].numerator + b.position()[1].numerator,
        both.position()[1].denominator == a.position()[1].denominator
            + b.position()[1].denominator,
{
    total_of_joined(a.swa_valid_counts@, b.swa_valid_counts@);
    total_of_joined(a.extra_valid_counts@, b.extra_valid_counts@);
    total_in_range(a.swa_valid_counts@);
    total_in_range(a.extra_valid_counts@);
    total_in_range(b.swa_valid_counts@);
    total_in_range(b.extra_valid_counts@);
}

/// A request with its valid rows in the window stands where one with as many beyond it
/// does.
pub proof fn valid_rows_count_alike(
    a: DeepseekV4SparseMlaDecodeKernelInput,
    b: DeepseekV4SparseMlaDecodeKernelInput,
)
    requires
        a.well_shaped(),
        b.swa_valid_counts@ == a.extra_valid_counts@,
        b.extra_valid_counts@ == a.swa_valid_counts@,
    ensures
        b.position() == a.position(),
{
    assert(b.position() =~= a.position());
}

/// The kernel computes in the precision that is described as `q_dtype` and keeps its cache
/// in the precision that is described as `cache_dtype`.
pub proof fn precisions_are_described(config: DeepseekV4SparseMlaDecodeKernelConfig)
    ensures
        config.compute() matches Some(precision) && config.description()[9] == (
            "q_dtype"@,
            ConfigTerm::Precision(precision),
        ),
        config.kv() matches Some(precision) && config.description()[10] == (
            "cache_dtype"@,
            ConfigTerm::Precision(precision),
        ),
{
}

} // verus!
