//! Query normalization, rotary embedding and packed key-value insert in one launch.
//!
//! The table is built over the token count and the fraction of tokens that are inserted;
//! the fraction axis counts in quarters, and cells that would insert part of a token are
//! left out.

use crate::bridge::payload::{
    dtype_text, number_value, text_value, ArgsPayload, DType, KernelKind, PayloadValue, Real,
    WireValue,
};
use crate::cache::{CacheKind, Extrapolation};
use crate::dims::Dim;
use crate::kernels::compact_counts::min_int;
use crate::kernels::config::{
    bits_of, dimension_of, field, fields_view, names_of, number_of, precision_of, text_of,
    ConfigField, ConfigTerm, KernelConfig,
};
use crate::kernels::deepseek_v4_fused_q_kv_rmsnorm::EPS_1E6_BITS;
use crate::kernels::engine::{
    carries, number_at, standing_is_value, stands_at, CellPayloads, KernelSpec, SweepCoords,
};
use crate::kernels::gdn_causal_conv_prefill::product_of;
use crate::sweep::{
    ascending, ascending_keeps_some, ascending_of, cell_at, cell_on_axes, chained,
    chained_keeps_some, pow2_points, whole, Axis, Ratio, SweepGrid,
};
use vstd::prelude::*;

verus! {

#[derive(Clone, Debug, PartialEq, Eq, Hash)]
pub struct DeepseekV4QnormRopeKvInsertKernelConfig {
    pub backends: Vec<&'static str>,
    pub gpu_name: String,
    pub num_heads: u32,
    pub padded_heads: u32,
    pub head_dim: Dim,
    pub rope_dim: Dim,
    pub block_size: u32,
    /// The bits of the epsilon as a double.
    pub rms_eps_bits: u64,
    pub input_dtype: DType,
    pub kv_dtype: DType,
    pub cache_dtype: String,
    pub cache_layout: String,
    pub scale_format: String,
}

impl KernelConfig for DeepseekV4QnormRopeKvInsertKernelConfig {
    const BACKENDS_FIELD: &'static str = "DeepseekV4QnormRopeKvInsertKernelConfig.backends";

    open spec fn candidates(&self) -> Seq<&'static str> {
        self.backends@
    }

    open spec fn gpu(&self) -> Seq<char> {
        self.gpu_name@
    }

    open spec fn compute(&self) -> Option<DType> {
        Some(self.input_dtype)
    }

    open spec fn kv(&self) -> Option<DType> {
        Some(self.kv_dtype)
    }

    open spec fn description(&self) -> Seq<(Seq<char>, ConfigTerm)> {
        seq![
            ("backends"@, ConfigTerm::Names(self.backends@)),
            ("gpu_name"@, ConfigTerm::Text(self.gpu_name@)),
            ("num_heads"@, ConfigTerm::Number(self.num_heads as nat)),
            ("padded_heads"@, ConfigTerm::Number(self.padded_heads as nat)),
            ("head_dim"@, ConfigTerm::Dimension(self.head_dim@)),
            ("rope_dim"@, ConfigTerm::Dimension(self.rope_dim@)),
            ("block_size"@, ConfigTerm::Number(self.block_size as nat)),
            ("rms_eps_bits"@, ConfigTerm::Number(self.rms_eps_bits as nat)),
            ("input_dtype"@, ConfigTerm::Precision(self.input_dtype)),
            ("kv_dtype"@, ConfigTerm::Precision(self.kv_dtype)),
            ("cache_dtype"@, ConfigTerm::Text(self.cache_dtype@)),
            ("cache_layout"@, ConfigTerm::Text(self.cache_layout@)),
            ("scale_format"@, ConfigTerm::Text(self.scale_format@)),
        ]
    }

    fn backends(&self) -> (r: &Vec<&'static str>) {
        &self.backends
    }

    fn gpu_name(&self) -> (r: &str) {
        self.gpu_name.as_str()
    }

    fn compute_dtype(&self) -> (r: Option<DType>) {
        Some(self.input_dtype)
    }

    fn kv_dtype(&self) -> (r: Option<DType>) {
        Some(self.kv_dtype)
    }

    fn describe_config(&self) -> (r: Vec<ConfigField>) {
        let r: Vec<ConfigField> = vec![
            field("backends", names_of(&self.backends)),
            field("gpu_name", text_of(self.gpu_name.as_str())),
            field("num_heads", number_of(self.num_heads)),
            field("padded_heads", number_of(self.padded_heads)),
            field("head_dim", dimension_of(&self.head_dim)),
            field("rope_dim", dimension_of(&self.rope_dim)),
            field("block_size", number_of(self.block_size)),
            field("rms_eps_bits", bits_of(self.rms_eps_bits)),
            field("input_dtype", precision_of(self.input_dtype)),
            field("kv_dtype", precision_of(self.kv_dtype)),
            field("cache_dtype", text_of(self.cache_dtype.as_str())),
            field("cache_layout", text_of(self.cache_layout.as_str())),
            field("scale_format", text_of(self.scale_format.as_str())),
        ];
        assert(fields_view(r@) =~= self.description());
        r
    }
}

/// A token count and how many of the tokens are inserted.
#[derive(Clone, Copy, Debug, PartialEq, Eq, Hash)]
pub struct DeepseekV4QnormRopeKvInsertKernelInput {
    pub num_tokens: u32,
    pub num_insert_tokens: u32,
}

impl SweepCoords for DeepseekV4QnormRopeKvInsertKernelInput {
    open spec fn well_shaped(&self) -> bool {
        self.num_tokens > 0 && self.num_insert_tokens <= self.num_tokens
    }

    open spec fn position(&self) -> Seq<Ratio> {
        seq![
            whole(self.num_tokens as int),
            (Ratio {
                numerator: self.num_insert_tokens as u64,
                denominator: self.num_tokens as u64,
            }),
        ]
    }

    open spec fn axis_names() -> Seq<Seq<char>> {
        seq!["num_tokens"@, "insert_fraction"@]
    }

    fn is_well_shaped(&self) -> (r: bool) {
        self.num_tokens > 0 && self.num_insert_tokens <= self.num_tokens
    }

    fn coords(&self) -> (r: Vec<Ratio>) {
        let r: Vec<Ratio> = vec![
            Ratio::from_whole(self.num_tokens),
            Ratio {
                numerator: self.num_insert_tokens as u64,
                denominator: self.num_tokens as u64,
            },
        ];
        assert(r@ =~= self.position());
        r
    }

    fn coord_field_names() -> (r: Vec<&'static str>) {
        let r: Vec<&'static str> = vec!["num_tokens", "insert_fraction"];
        assert(r@.map_values(|name: &'static str| name@) =~= Self::axis_names());
        r
    }
}

/// The tokens inserted at `quarters` quarters of `tokens`, rounded to the nearest.
pub open spec fn inserted_tokens(tokens: int, quarters: int) -> int {
    min_int((tokens * quarters + 2) / 4, u32::MAX as int)
}

/// The tokens inserted at `quarters` quarters of `tokens`, rounded to the nearest.
fn insert_count(tokens: u32, quarters: u32) -> (r: u32)
    ensures
        r == inserted_tokens(tokens as int, quarters as int),
{
    assert(0 <= tokens * quarters <= 0xffff_ffff * 0xffff_ffff) by (nonlinear_arith)
        requires
            0 <= tokens <= 0xffff_ffff,
            0 <= quarters <= 0xffff_ffff,
    ;
    let rounded: u64 = (tokens as u64 * quarters as u64 + 2) / 4;
    if rounded <= u32::MAX as u64 {
        rounded as u32
    } else {
        u32::MAX
    }
}

pub struct DeepseekV4QnormRopeKvInsertSpec;

impl KernelSpec for DeepseekV4QnormRopeKvInsertSpec {
    type Config = DeepseekV4QnormRopeKvInsertKernelConfig;

    type Input = DeepseekV4QnormRopeKvInsertKernelInput;

    const KIND: KernelKind = "deepseek_v4_qnorm_rope_kv_insert";

    open spec fn admits(config: DeepseekV4QnormRopeKvInsertKernelConfig) -> bool {
        config.num_heads == 64 && config.padded_heads == 64 && config.head_dim@.fold() == 512
            && config.rope_dim@.fold() == 64 && config.block_size == 256 && config.rms_eps_bits
            == EPS_1E6_BITS
    }

    open spec fn axes(
        config: DeepseekV4QnormRopeKvInsertKernelConfig,
        tokens: Seq<u32>,
    ) -> Seq<Seq<u32>> {
        seq![
            ascending_of(
                chained(chained(pow2_points(0, 9), seq![1023u32, 1024, 1025]), tokens),
            ),
            seq![0u32, 1, 2, 3, 4],
        ]
    }

    open spec fn units(axes: Seq<Seq<u32>>) -> Seq<u32> {
        seq![1u32, 4]
    }

    open spec fn table(backend: Seq<char>) -> CacheKind {
        CacheKind::Cache2DLinear(Extrapolation::Weighted)
    }

    open spec fn masks() -> bool {
        true
    }

    open spec fn judges(config: DeepseekV4QnormRopeKvInsertKernelConfig, cell: Seq<u32>) -> bool {
        cell.len() == 2
    }

    open spec fn infeasible(
        config: DeepseekV4QnormRopeKvInsertKernelConfig,
        cell: Seq<u32>,
    ) -> bool {
        (cell[0] * cell[1]) % 4 != 0
    }

    open spec fn table_position(
        config: DeepseekV4QnormRopeKvInsertKernelConfig,
        input: DeepseekV4QnormRopeKvInsertKernelInput,
    ) -> Seq<Ratio> {
        input.position()
    }

    open spec fn answers(
        config: DeepseekV4QnormRopeKvInsertKernelConfig,
        input: DeepseekV4QnormRopeKvInsertKernelInput,
    ) -> bool {
        input.well_shaped()
    }

    fn profile_kind() -> (r: KernelKind) {
        Self::KIND
    }

    fn can_sweep(config: &DeepseekV4QnormRopeKvInsertKernelConfig) -> (r: bool) {
        config.num_heads == 64 && config.padded_heads == 64 && config.head_dim.get() == 512
            && config.rope_dim.get() == 64 && config.block_size == 256 && config.rms_eps_bits
            == EPS_1E6_BITS
    }

    fn sweep_grid(
        config: &DeepseekV4QnormRopeKvInsertKernelConfig,
        tokens: &Vec<u32>,
    ) -> (r: SweepGrid) {
        let boundary: Vec<u32> = vec![1023, 1024, 1025];
        assert(boundary@ =~= seq![1023u32, 1024, 1025]);
        let a0: Vec<u32> = ascending(
            &Axis::chain(Axis::chain(Axis::pow2(0, 9), &boundary), tokens),
        );
        let a1: Vec<u32> = vec![0, 1, 2, 3, 4];
        let units: Vec<u32> = vec![1, 4];
        let r = SweepGrid::with_units(vec![a0, a1], units);
        proof {
            assert(r.points() =~= Self::axes(*config, tokens@));
            assert(r.scale() =~= seq![1u32, 4]);
        }
        r
    }

    fn cache_kind(backend: &str) -> (r: CacheKind) {
        CacheKind::Cache2DLinear(Extrapolation::Weighted)
    }

    fn has_mask() -> (r: bool) {
        true
    }

    fn is_infeasible(
        config: &DeepseekV4QnormRopeKvInsertKernelConfig,
        cell: &Vec<u32>,
    ) -> (r: bool) {
        product_of(cell[0], cell[1]) % 4 != 0
    }

    fn can_answer(
        config: &DeepseekV4QnormRopeKvInsertKernelConfig,
        input: &DeepseekV4QnormRopeKvInsertKernelInput,
    ) -> (r: bool) {
        input.is_well_shaped()
    }

    fn cache_coords(
        config: &DeepseekV4QnormRopeKvInsertKernelConfig,
        input: &DeepseekV4QnormRopeKvInsertKernelInput,
    ) -> (r: Vec<Ratio>) {
        input.coords()
    }

    proof fn sweep_fits_table(
        config: DeepseekV4QnormRopeKvInsertKernelConfig,
        tokens: Seq<u32>,
        backend: Seq<char>,
    ) {
        let low = chained(pow2_points(0, 9), seq![1023u32, 1024, 1025]);
        chained_keeps_some(pow2_points(0, 9), seq![1023u32, 1024, 1025]);
        chained_keeps_some(low, tokens);
        ascending_keeps_some(chained(low, tokens));
    }

    proof fn sweep_is_judged(
        config: DeepseekV4QnormRopeKvInsertKernelConfig,
        tokens: Seq<u32>,
        index: nat,
    ) {
        cell_on_axes(Self::axes(config, tokens), index);
    }

    proof fn queries_fit_table(
        config: DeepseekV4QnormRopeKvInsertKernelConfig,
        input: DeepseekV4QnormRopeKvInsertKernelInput,
        backend: Seq<char>,
    ) {
    }
}

impl CellPayloads for DeepseekV4QnormRopeKvInsertSpec {
    open spec fn covers(config: DeepseekV4QnormRopeKvInsertKernelConfig, cell: Seq<u32>) -> bool {
        cell.len() == 2
    }

    open spec fn enumerates(config: DeepseekV4QnormRopeKvInsertKernelConfig) -> bool {
        true
    }

    open spec fn fields(
        config: DeepseekV4QnormRopeKvInsertKernelConfig,
        cell: Seq<u32>,
        backend: Seq<char>,
    ) -> Map<Seq<char>, WireValue> {
        Map::<Seq<char>, WireValue>::empty()
            .insert("num_tokens"@, WireValue::Number(cell[0] as nat))
            .insert(
                "num_insert_tokens"@,
                WireValue::Number(inserted_tokens(cell[0] as int, cell[1] as int) as nat),
            )
            .insert("num_heads"@, WireValue::Number(config.num_heads as nat))
            .insert("padded_heads"@, WireValue::Number(config.padded_heads as nat))
            .insert("head_dim"@, WireValue::Number(config.head_dim@.fold() as nat))
            .insert("rope_dim"@, WireValue::Number(config.rope_dim@.fold() as nat))
            .insert("block_size"@, WireValue::Number(config.block_size as nat))
            .insert("rms_eps"@, WireValue::Real(Real::Bits(config.rms_eps_bits)))
            .insert("input_dtype"@, WireValue::Text(dtype_text(config.input_dtype)))
            .insert("cache_dtype"@, WireValue::Text(config.cache_dtype@))
            .insert("cache_layout"@, WireValue::Text(config.cache_layout@))
            .insert("scale_format"@, WireValue::Text(config.scale_format@))
            .insert("backend"@, WireValue::Text(backend))
    }

    fn can_enumerate(config: &DeepseekV4QnormRopeKvInsertKernelConfig) -> (r: bool) {
        true
    }

    fn cell_payload(
        config: &DeepseekV4QnormRopeKvInsertKernelConfig,
        cell: &Vec<u32>,
        backend: &str,
    ) -> (r: ArgsPayload) {
        ArgsPayload::new()
            .with("num_tokens", number_value(cell[0]))
            .with("num_insert_tokens", number_value(insert_count(cell[0], cell[1])))
            .with("num_heads", number_value(config.num_heads))
            .with("padded_heads", number_value(config.padded_heads))
            .with("head_dim", number_value(config.head_dim.get()))
            .with("rope_dim", number_value(config.rope_dim.get()))
            .with("block_size", number_value(config.block_size))
            .with("rms_eps", PayloadValue::Real(Real::Bits(config.rms_eps_bits)))
            .with("input_dtype", text_value(config.input_dtype.as_str()))
            .with("cache_dtype", text_value(config.cache_dtype.as_str()))
            .with("cache_layout", text_value(config.cache_layout.as_str()))
            .with("scale_format", text_value(config.scale_format.as_str()))
            .with("backend", text_value(backend))
    }

    proof fn sweep_is_covered(
        config: DeepseekV4QnormRopeKvInsertKernelConfig,
        tokens: Seq<u32>,
        index: nat,
    ) {
        cell_on_axes(Self::axes(config, tokens), index);
    }

    proof fn fields_name_backend(
        config: DeepseekV4QnormRopeKvInsertKernelConfig,
        cell: Seq<u32>,
        backend: Seq<char>,
    ) {
    }

    open spec fn describes(
        config: DeepseekV4QnormRopeKvInsertKernelConfig,
        fields: Map<Seq<char>, WireValue>,
        input: DeepseekV4QnormRopeKvInsertKernelInput,
    ) -> bool {
        &&& number_at(fields, "num_tokens"@) == input.num_tokens
        &&& number_at(fields, "num_insert_tokens"@) == input.num_insert_tokens
    }

    open spec fn occurs(config: DeepseekV4QnormRopeKvInsertKernelConfig, cell: Seq<u32>) -> bool {
        cell[0] > 0
    }

    open spec fn kept_back() -> Set<Seq<char>> {
        set!["backends"@, "gpu_name"@, "rms_eps_bits"@, "kv_dtype"@]
    }

    proof fn payload_stands_at_its_cell(
        config: DeepseekV4QnormRopeKvInsertKernelConfig,
        tokens: Seq<u32>,
        index: nat,
        backend: Seq<char>,
        input: DeepseekV4QnormRopeKvInsertKernelInput,
    ) {
        cell_on_axes(Self::axes(config, tokens), index);
        reveal_strlit("num_tokens");
        reveal_strlit("num_insert_tokens");
        reveal_strlit("num_heads");
        reveal_strlit("padded_heads");
        reveal_strlit("head_dim");
        reveal_strlit("rope_dim");
        reveal_strlit("block_size");
        reveal_strlit("rms_eps");
        reveal_strlit("input_dtype");
        reveal_strlit("cache_dtype");
        reveal_strlit("cache_layout");
        reveal_strlit("scale_format");
        reveal_strlit("backend");
        assert("num_tokens"@.len() == 10 && "num_tokens"@[0] == 'n');
        assert("num_insert_tokens"@.len() == 17);
        assert("num_heads"@.len() == 9);
        assert("padded_heads"@.len() == 12);
        assert("head_dim"@.len() == 8);
        assert("rope_dim"@.len() == 8);
        assert("block_size"@.len() == 10 && "block_size"@[0] == 'b');
        assert("rms_eps"@.len() == 7);
        assert("input_dtype"@.len() == 11);
        assert("cache_dtype"@.len() == 11);
        assert("cache_layout"@.len() == 12);
        assert("scale_format"@.len() == 12);
        assert("backend"@.len() == 7);
        let cell = cell_at(Self::axes(config, tokens), index);
        assert(Self::axes(config, tokens)[1].contains(cell[1]));
        launch_stands_at_cell(cell, input);
        let at = Self::table_position(config, input);
        let units = Self::units(Self::axes(config, tokens));
        assert(at[0].numerator * units[0] == cell[0] * at[0].denominator);
        assert(at[1].numerator * units[1] == cell[1] * at[1].denominator);
    }

    proof fn payload_carries_config(
        config: DeepseekV4QnormRopeKvInsertKernelConfig,
        cell: Seq<u32>,
        backend: Seq<char>,
        i: int,
    ) {
        reveal_strlit("num_heads");
        reveal_strlit("padded_heads");
        reveal_strlit("head_dim");
        reveal_strlit("rope_dim");
        reveal_strlit("block_size");
        reveal_strlit("rms_eps");
        reveal_strlit("input_dtype");
        reveal_strlit("cache_dtype");
        reveal_strlit("cache_layout");
        reveal_strlit("scale_format");
        reveal_strlit("backend");
        assert("num_heads"@.len() == 9);
        assert("padded_heads"@.len() == 12 && "padded_heads"@[0] == 'p');
        assert("head_dim"@.len() == 8 && "head_dim"@[0] == 'h');
        assert("rope_dim"@.len() == 8 && "rope_dim"@[0] == 'r');
        assert("block_size"@.len() == 10);
        assert("rms_eps"@.len() == 7);
        assert("input_dtype"@.len() == 11 && "input_dtype"@[0] == 'i');
        assert("cache_dtype"@.len() == 11 && "cache_dtype"@[0] == 'c');
        assert("cache_layout"@.len() == 12 && "cache_layout"@[0] == 'c');
        assert("scale_format"@.len() == 12 && "scale_format"@[0] == 's');
        assert("backend"@.len() == 7);
        let fields = Self::fields(config, cell, backend);
        let terms = config.description();
        assert(carries(fields, terms[2]));
        assert(carries(fields, terms[3]));
        assert(carries(fields, terms[4]));
        assert(carries(fields, terms[5]));
        assert(carries(fields, terms[6]));
        assert(carries(fields, terms[8]));
        assert(carries(fields, terms[10]));
        assert(carries(fields, terms[11]));
        assert(carries(fields, terms[12]));
    }

    proof fn described_alike_is_profiled_alike(
        a: DeepseekV4QnormRopeKvInsertKernelConfig,
        b: DeepseekV4QnormRopeKvInsertKernelConfig,
        tokens: Seq<u32>,
        cell: Seq<u32>,
        backend: Seq<char>,
    ) {
        let (x, y) = (a.description(), b.description());
        assert(x[0] == y[0]);
        assert(x[1] == y[1]);
        assert(x[2] == y[2]);
        assert(x[3] == y[3]);
        assert(x[4] == y[4]);
        assert(x[5] == y[5]);
        assert(x[6] == y[6]);
        assert(x[7] == y[7]);
        assert(x[8] == y[8]);
        assert(x[9] == y[9]);
        assert(x[10] == y[10]);
        assert(x[11] == y[11]);
        assert(x[12] == y[12]);
    }
}

/// The launch of a feasible cell, taken as a query, stands at the cell: it inserts
/// exactly the swept quarters of its rows.
pub proof fn launch_stands_at_cell(cell: Seq<u32>, input: DeepseekV4QnormRopeKvInsertKernelInput)
    requires
        cell.len() == 2,
        cell[0] > 0,
        cell[1] <= 4,
        (cell[0] * cell[1]) % 4 == 0,
        input.num_tokens == cell[0],
        input.num_insert_tokens == inserted_tokens(cell[0] as int, cell[1] as int),
    ensures
        input.well_shaped(),
        input.position()[0] == whole(cell[0] as int),
        4 * input.position()[1].numerator == cell[1] * input.position()[1].denominator,
{
    let rows = cell[0] as int;
    let quarters = cell[1] as int;
    assert(0 <= rows * quarters <= 4 * rows) by (nonlinear_arith)
        requires
            rows >= 0,
            0 <= quarters <= 4,
    ;
    assert(rows * quarters == quarters * rows) by (nonlinear_arith);
}

/// A cell that is left out is the place of no launch: a launch that inserts some quarters
/// of its tokens has tokens that divide so.
pub proof fn every_launch_has_its_cell(
    config: DeepseekV4QnormRopeKvInsertKernelConfig,
    cell: Seq<u32>,
    input: DeepseekV4QnormRopeKvInsertKernelInput,
)
    requires
        cell.len() == 2,
        input.well_shaped(),
        stands_at(input.position(), cell, seq![1, 4]),
    ensures
        !DeepseekV4QnormRopeKvInsertSpec::infeasible(config, cell),
{
    let at = input.position();
    let units = seq![1u32, 4];
    standing_is_value(at, cell, units, 0);
    assert(at[1].numerator * units[1] == cell[1] * at[1].denominator);
    let (rows, quarters) = (cell[0] as int, cell[1] as int);
    let (inserted, tokens) = (at[1].numerator as int, at[1].denominator as int);
    let unit = units[1] as int;
    assert(rows * quarters == 4 * inserted) by (nonlinear_arith)
        requires
            inserted * unit == quarters * tokens,
            unit == 4,
            tokens == rows,
    ;
}

/// The epsilon is the double whose bits the configuration holds.
pub proof fn epsilon_is_carried(
    config: DeepseekV4QnormRopeKvInsertKernelConfig,
    cell: Seq<u32>,
    backend: Seq<char>,
)
    ensures
        DeepseekV4QnormRopeKvInsertSpec::fields(config, cell, backend)["rms_eps"@]
            == WireValue::Real(Real::Bits(config.rms_eps_bits)),
{
    reveal_strlit("rms_eps");
    reveal_strlit("input_dtype");
    reveal_strlit("cache_dtype");
    reveal_strlit("cache_layout");
    reveal_strlit("scale_format");
    reveal_strlit("backend");
    assert("rms_eps"@.len() == 7 && "rms_eps"@[0] == 'r');
    assert("input_dtype"@.len() == 11);
    assert("cache_dtype"@.len() == 11);
    assert("cache_layout"@.len() == 12);
    assert("scale_format"@.len() == 12);
    assert("backend"@.len() == 7 && "backend"@[0] == 'b');
}

/// The kernel computes in the precision that is described as `input_dtype` and keeps its
/// cache in the precision that is described as `kv_dtype`.
pub proof fn precisions_are_described(config: DeepseekV4QnormRopeKvInsertKernelConfig)
    ensures
        config.compute() matches Some(precision) && config.description()[8] == (
            "input_dtype"@,
            ConfigTerm::Precision(precision),
        ),
        config.kv() matches Some(precision) && config.description()[9] == (
            "kv_dtype"@,
            ConfigTerm::Precision(precision),
        ),
{
}

} // verus!
