//! Gather and dequantization of packed cache rows into a workspace.
//!
//! A request's whole sequence is gathered, or only a suffix of it. The table is built
//! over the number of requests and the mean of gathered rows.

use crate::bridge::payload::{
    dtype_text, number_value, text_value, ArgsPayload, DType, KernelKind, PayloadValue, WireValue,
};
use crate::cache::{CacheKind, Extrapolation};
use crate::dims::Dim;
use crate::expert_demand::{total, total_in_range, total_of_joined};
use crate::kernels::config::{
    dimension_of, field, fields_view, names_of, number_of, precision_of, text_of, ConfigField,
    ConfigTerm, ConfigValue, KernelConfig,
};
use crate::kernels::engine::{
    carries, numbers_at, stands_on_whole_units, whole_units, CellPayloads, KernelSpec, SweepCoords,
};
use crate::kernels::request_split::{copies, repeat_value, row_sum, total_of_copies};
use crate::sweep::{at_most, at_most_keeps, cell_at, cell_on_axes, whole, Axis, Ratio, SweepGrid};
use vstd::prelude::*;

verus! {

/// What is gathered of each sequence.
#[derive(Clone, Copy, Debug, PartialEq, Eq, Hash, Structural)]
pub enum DeepseekV4PackedCacheGatherMode {
    Full,
    Suffix,
}

pub open spec fn mode_term(mode: DeepseekV4PackedCacheGatherMode) -> ConfigTerm {
    match mode {
        DeepseekV4PackedCacheGatherMode::Full => ConfigTerm::Variant("full"@, seq![]),
        DeepseekV4PackedCacheGatherMode::Suffix => ConfigTerm::Variant("suffix"@, seq![]),
    }
}

fn mode_value(mode: DeepseekV4PackedCacheGatherMode) -> (r: ConfigValue)
    ensures
        r@ == mode_term(mode),
{
    let r = match mode {
        DeepseekV4PackedCacheGatherMode::Full => ConfigValue::Variant {
            tag: "full",
            fields: Vec::new(),
        },
        DeepseekV4PackedCacheGatherMode::Suffix => ConfigValue::Variant {
            tag: "suffix",
            fields: Vec::new(),
        },
    };
    assert(r@->Variant_1 =~= mode_term(mode)->Variant_1);
    r
}

pub open spec fn selected_points() -> Seq<u32> {
    seq![
        1u32, 2, 4, 8, 16, 32, 64, 96, 128, 129, 160, 192, 256, 257, 384, 512, 768, 1024,
        1536, 2048, 3072, 4096, 8192, 16384,
    ]
}

/// The swept row counts up to the largest gather.
fn selected_axis(max_gather_rows: u32) -> (r: Vec<u32>)
    ensures
        r@ == at_most(selected_points(), max_gather_rows as int),
{
    let points: Vec<u32> = vec![
        1, 2, 4, 8, 16, 32, 64, 96, 128, 129, 160, 192, 256, 257, 384, 512, 768, 1024, 1536,
        2048, 3072, 4096, 8192, 16384,
    ];
    assert(points@ =~= selected_points());
    Axis::up_to(&points, max_gather_rows)
}

#[derive(Clone, Debug, PartialEq, Eq, Hash)]
pub struct DeepseekV4PackedCacheGatherKernelConfig {
    pub backends: Vec<&'static str>,
    pub gpu_name: String,
    pub mode: DeepseekV4PackedCacheGatherMode,
    pub suffix_sequence_len: u32,
    pub max_gather_rows: u32,
    pub workspace_rows: u32,
    pub block_table_width: u32,
    pub block_size: u32,
    pub offset: u32,
    pub num_kv_heads: u32,
    pub head_dim: Dim,
    pub fp8_dim: u32,
    pub quant_group_size: u32,
    pub kv_dtype: DType,
    pub cache_dtype: String,
    pub output_dtype: DType,
    pub cache_layout: String,
    pub scale_format: String,
}

impl KernelConfig for DeepseekV4PackedCacheGatherKernelConfig {
    const BACKENDS_FIELD: &'static str = "DeepseekV4PackedCacheGatherKernelConfig.backends";

    open spec fn candidates(&self) -> Seq<&'static str> {
        self.backends@
    }

    open spec fn gpu(&self) -> Seq<char> {
        self.gpu_name@
    }

    open spec fn compute(&self) -> Option<DType> {
        Some(self.output_dtype)
    }

    open spec fn kv(&self) -> Option<DType> {
        Some(self.kv_dtype)
    }

    open spec fn description(&self) -> Seq<(Seq<char>, ConfigTerm)> {
        seq![
            ("backends"@, ConfigTerm::Names(self.backends@)),
            ("gpu_name"@, ConfigTerm::Text(self.gpu_name@)),
            ("mode"@, mode_term(self.mode)),
            ("suffix_sequence_len"@, ConfigTerm::Number(self.suffix_sequence_len as nat)),
            ("max_gather_rows"@, ConfigTerm::Number(self.max_gather_rows as nat)),
            ("workspace_rows"@, ConfigTerm::Number(self.workspace_rows as nat)),
            ("block_table_width"@, ConfigTerm::Number(self.block_table_width as nat)),
            ("block_size"@, ConfigTerm::Number(self.block_size as nat)),
            ("offset"@, ConfigTerm::Number(self.offset as nat)),
            ("num_kv_heads"@, ConfigTerm::Number(self.num_kv_heads as nat)),
            ("head_dim"@, ConfigTerm::Dimension(self.head_dim@)),
            ("fp8_dim"@, ConfigTerm::Number(self.fp8_dim as nat)),
            ("quant_group_size"@, ConfigTerm::Number(self.quant_group_size as nat)),
            ("kv_dtype"@, ConfigTerm::Precision(self.kv_dtype)),
            ("cache_dtype"@, ConfigTerm::Text(self.cache_dtype@)),
            ("output_dtype"@, ConfigTerm::Precision(self.output_dtype)),
            ("cache_layout"@, ConfigTerm::Text(self.cache_layout@)),
            ("scale_format"@, ConfigTerm::Text(self.scale_format@)),
        ]
    }

    fn backends(&self) -> (r: &Vec<&'static str>) {
        &self.backends
    }

    fn gpu_name(&self) -> (r: &str) {
        self.gpu_name.as_str()
    }

    fn compute_dtype(&self) -> (r: Option<DType>) {
        Some(self.output_dtype)
    }

    fn kv_dtype(&self) -> (r: Option<DType>) {
        Some(self.kv_dtype)
    }

    fn describe_config(&self) -> (r: Vec<ConfigField>) {
        let r: Vec<ConfigField> = vec![
            field("backends", names_of(&self.backends)),
            field("gpu_name", text_of(self.gpu_name.as_str())),
            field("mode", mode_value(self.mode)),
            field("suffix_sequence_len", number_of(self.suffix_sequence_len)),
            field("max_gather_rows", number_of(self.max_gather_rows)),
            field("workspace_rows", number_of(self.workspace_rows)),
            field("block_table_width", number_of(self.block_table_width)),
            field("block_size", number_of(self.block_size)),
            field("offset", number_of(self.offset)),
            field("num_kv_heads", number_of(self.num_kv_heads)),
            field("head_dim", dimension_of(&self.head_dim)),
            field("fp8_dim", number_of(self.fp8_dim)),
            field("quant_group_size", number_of(self.quant_group_size)),
            field("kv_dtype", precision_of(self.kv_dtype)),
            field("cache_dtype", text_of(self.cache_dtype.as_str())),
            field("output_dtype", precision_of(self.output_dtype)),
            field("cache_layout", text_of(self.cache_layout.as_str())),
            field("scale_format", text_of(self.scale_format.as_str())),
        ];
        assert(fields_view(r@) =~= self.description());
        r
    }
}

/// The sequence lengths of a batch and, for a suffix gather, how much of each is
/// gathered.
#[derive(Clone, Debug, PartialEq, Eq, Hash)]
pub struct DeepseekV4PackedCacheGatherKernelInput {
    pub seq_lens: Vec<u32>,
    pub gather_lens: Vec<u32>,
}

/// Whether a batch of at most four requests gathers no more than it has.
pub open spec fn gather_ok(seq_lens: Seq<u32>, gather_lens: Seq<u32>) -> bool {
    &&& 0 < seq_lens.len() <= 4
    &&& gather_lens.len() == 0 || gather_lens.len() == seq_lens.len()
    &&& forall|i: int| 0 <= i < gather_lens.len() ==> #[trigger] gather_lens[i] <= seq_lens[i]
}

/// Whether the rows can be gathered.
pub fn can_gather_rows(seq_lens: &Vec<u32>, gather_lens: &Vec<u32>) -> (r: bool)
    ensures
        r == gather_ok(seq_lens@, gather_lens@),
{
    let requests: usize = seq_lens.len();
    if requests == 0 || requests > 4 {
        return false;
    }
    if gather_lens.len() != 0 && gather_lens.len() != requests {
        return false;
    }
    let mut i: usize = 0;
    while i < gather_lens.len()
        invariant
            i <= gather_lens@.len(),
            gather_lens@.len() == 0 || gather_lens@.len() == seq_lens@.len(),
            forall|j: int| 0 <= j < i ==> #[trigger] gather_lens@[j] <= seq_lens@[j],
        decreases gather_lens@.len() - i,
    {
        if gather_lens[i] > seq_lens[i] {
            return false;
        }
        i += 1;
    }
    true
}

/// The rows that are gathered of each sequence.
pub open spec fn gathered(seq_lens: Seq<u32>, gather_lens: Seq<u32>) -> Seq<u32> {
    if gather_lens.len() == 0 {
        seq_lens
    } else {
        gather_lens
    }
}

impl SweepCoords for DeepseekV4PackedCacheGatherKernelInput {
    open spec fn well_shaped(&self) -> bool {
        gather_ok(self.seq_lens@, self.gather_lens@)
    }

    open spec fn position(&self) -> Seq<Ratio> {
        seq![
            whole(self.seq_lens@.len() as int),
            (Ratio {
                numerator: total(gathered(self.seq_lens@, self.gather_lens@)) as u64,
                denominator: self.seq_lens@.len() as u64,
            }),
        ]
    }

    open spec fn axis_names() -> Seq<Seq<char>> {
        seq!["num_requests"@, "mean_selected_rows"@]
    }

    fn is_well_shaped(&self) -> (r: bool) {
        can_gather_rows(&self.seq_lens, &self.gather_lens)
    }

    fn coords(&self) -> (r: Vec<Ratio>) {
        let rows: u64 = if self.gather_lens.len() == 0 {
            row_sum(&self.seq_lens)
        } else {
            row_sum(&self.gather_lens)
        };
        let requests: u64 = self.seq_lens.len() as u64;
        let r: Vec<Ratio> = vec![
            Ratio::from_whole(requests as u32),
            Ratio { numerator: rows, denominator: requests },
        ];
        assert(r@ =~= self.position());
        r
    }

    fn coord_field_names() -> (r: Vec<&'static str>) {
        let r: Vec<&'static str> = vec!["num_requests", "mean_selected_rows"];
        assert(r@.map_values(|name: &'static str| name@) =~= Self::axis_names());
        r
    }
}

/// The lengths that a cell is enumerated with: sequence lengths and gather lengths.
pub open spec fn canonical_lens(
    config: DeepseekV4PackedCacheGatherKernelConfig,
    requests: int,
    rows: int,
) -> (Seq<u32>, Seq<u32>) {
    match config.mode {
        DeepseekV4PackedCacheGatherMode::Full => (copies(rows, requests), seq![]),
        DeepseekV4PackedCacheGatherMode::Suffix => (
            copies(config.suffix_sequence_len as int, requests),
            copies(rows, requests),
        ),
    }
}

/// The batch that a cell is enumerated with.
pub fn canonical_input(
    config: &DeepseekV4PackedCacheGatherKernelConfig,
    requests: u32,
    selected_rows: u32,
) -> (r: DeepseekV4PackedCacheGatherKernelInput)
    ensures
        (r.seq_lens@, r.gather_lens@) == canonical_lens(
            *config,
            requests as int,
            selected_rows as int,
        ),
{
    match config.mode {
        DeepseekV4PackedCacheGatherMode::Full => {
            let gather_lens: Vec<u32> = Vec::new();
            assert(gather_lens@ =~= seq![]);
            DeepseekV4PackedCacheGatherKernelInput {
                seq_lens: repeat_value(selected_rows, requests),
                gather_lens,
            }
        },
        DeepseekV4PackedCacheGatherMode::Suffix => DeepseekV4PackedCacheGatherKernelInput {
            seq_lens: repeat_value(config.suffix_sequence_len, requests),
            gather_lens: repeat_value(selected_rows, requests),
        },
    }
}

/// The batch of a cell projects back to the cell.
pub proof fn canonical_lens_project_back(
    config: DeepseekV4PackedCacheGatherKernelConfig,
    requests: int,
    rows: int,
)
    requires
        1 <= requests <= 4,
        0 <= rows <= u32::MAX,
        config.mode == DeepseekV4PackedCacheGatherMode::Suffix ==> rows
            <= config.suffix_sequence_len,
    ensures
        ({
            let (seq_lens, gather_lens) = canonical_lens(config, requests, rows);
            &&& gather_ok(seq_lens, gather_lens)
            &&& seq_lens.len() == requests
            &&& total(gathered(seq_lens, gather_lens)) == rows * requests
        }),
{
    total_of_copies(rows, requests);
    if config.mode == DeepseekV4PackedCacheGatherMode::Suffix {
        assert(copies(rows, requests).len() == requests);
    }
}

/// Whether a configuration's gather fits its block table and its workspace.
pub open spec fn gather_config_ok(config: DeepseekV4PackedCacheGatherKernelConfig) -> bool {
    let covered = config.block_table_width * config.block_size;
    &&& config.block_size == 2 || config.block_size == 64
    &&& config.max_gather_rows + config.offset <= config.workspace_rows
    &&& covered <= u32::MAX
    &&& match config.mode {
        DeepseekV4PackedCacheGatherMode::Full => config.max_gather_rows <= covered,
        DeepseekV4PackedCacheGatherMode::Suffix => config.max_gather_rows
            <= config.suffix_sequence_len && config.suffix_sequence_len <= covered,
    }
}

/// Whether the gathered rows fit the workspace and the block tables.
pub fn can_gather(config: &DeepseekV4PackedCacheGatherKernelConfig) -> (r: bool)
    ensures
        r == gather_config_ok(*config),
{
    assert(0 <= config.block_table_width * config.block_size <= u64::MAX) by (nonlinear_arith)
        requires
            0 <= config.block_table_width <= u32::MAX,
            0 <= config.block_size <= u32::MAX,
    ;
    let covered: u64 = config.block_table_width as u64 * config.block_size as u64;
    let rows: u64 = config.max_gather_rows as u64;
    let reached: bool = match config.mode {
        DeepseekV4PackedCacheGatherMode::Full => rows <= covered,
        DeepseekV4PackedCacheGatherMode::Suffix => config.max_gather_rows
            <= config.suffix_sequence_len && config.suffix_sequence_len as u64 <= covered,
    };
    (config.block_size == 2 || config.block_size == 64) && rows + config.offset as u64
        <= config.workspace_rows as u64 && covered <= u32::MAX as u64 && reached
}

pub struct DeepseekV4PackedCacheGatherSpec;

impl KernelSpec for DeepseekV4PackedCacheGatherSpec {
    type Config = DeepseekV4PackedCacheGatherKernelConfig;

    type Input = DeepseekV4PackedCacheGatherKernelInput;

    const KIND: KernelKind = "deepseek_v4_packed_cache_gather";

    open spec fn admits(config: DeepseekV4PackedCacheGatherKernelConfig) -> bool {
        gather_config_ok(config)
    }

    open spec fn axes(
        config: DeepseekV4PackedCacheGatherKernelConfig,
        tokens: Seq<u32>,
    ) -> Seq<Seq<u32>> {
        seq![seq![1u32, 2, 3, 4], at_most(selected_points(), config.max_gather_rows as int)]
    }

    open spec fn units(axes: Seq<Seq<u32>>) -> Seq<u32> {
        whole_units(axes)
    }

    open spec fn table(backend: Seq<char>) -> CacheKind {
        CacheKind::Cache2DLinear(Extrapolation::Product)
    }

    open spec fn masks() -> bool {
        false
    }

    open spec fn judges(config: DeepseekV4PackedCacheGatherKernelConfig, cell: Seq<u32>) -> bool {
        true
    }

    open spec fn infeasible(
        config: DeepseekV4PackedCacheGatherKernelConfig,
        cell: Seq<u32>,
    ) -> bool {
        false
    }

    open spec fn table_position(
        config: DeepseekV4PackedCacheGatherKernelConfig,
        input: DeepseekV4PackedCacheGatherKernelInput,
    ) -> Seq<Ratio> {
        input.position()
    }

    open spec fn answers(
        config: DeepseekV4PackedCacheGatherKernelConfig,
        input: DeepseekV4PackedCacheGatherKernelInput,
    ) -> bool {
        input.well_shaped()
    }

    fn profile_kind() -> (r: KernelKind) {
        Self::KIND
    }

    fn can_sweep(config: &DeepseekV4PackedCacheGatherKernelConfig) -> (r: bool) {
        can_gather(config)
    }

    fn sweep_grid(
        config: &DeepseekV4PackedCacheGatherKernelConfig,
        tokens: &Vec<u32>,
    ) -> (r: SweepGrid) {
        let a0: Vec<u32> = Axis::values(vec![1, 2, 3, 4]);
        let a1: Vec<u32> = selected_axis(config.max_gather_rows);
        let r = SweepGrid::new(vec![a0, a1]);
        proof {
            assert(r.points() =~= Self::axes(*config, tokens@));
            assert(r.scale() =~= whole_units(r.points()));
        }
        r
    }

    fn cache_kind(backend: &str) -> (r: CacheKind) {
        CacheKind::Cache2DLinear(Extrapolation::Product)
    }

    fn has_mask() -> (r: bool) {
        false
    }

    fn is_infeasible(
        config: &DeepseekV4PackedCacheGatherKernelConfig,
        cell: &Vec<u32>,
    ) -> (r: bool) {
        false
    }

    fn can_answer(
        config: &DeepseekV4PackedCacheGatherKernelConfig,
        input: &DeepseekV4PackedCacheGatherKernelInput,
    ) -> (r: bool) {
        input.is_well_shaped()
    }

    fn cache_coords(
        config: &DeepseekV4PackedCacheGatherKernelConfig,
        input: &DeepseekV4PackedCacheGatherKernelInput,
    ) -> (r: Vec<Ratio>) {
        input.coords()
    }

    proof fn sweep_fits_table(
        config: DeepseekV4PackedCacheGatherKernelConfig,
        tokens: Seq<u32>,
        backend: Seq<char>,
    ) {
    }

    proof fn sweep_is_judged(
        config: DeepseekV4PackedCacheGatherKernelConfig,
        tokens: Seq<u32>,
        index: nat,
    ) {
    }

    proof fn queries_fit_table(
        config: DeepseekV4PackedCacheGatherKernelConfig,
        input: DeepseekV4PackedCacheGatherKernelInput,
        backend: Seq<char>,
    ) {
    }
}

impl CellPayloads for DeepseekV4PackedCacheGatherSpec {
    open spec fn covers(config: DeepseekV4PackedCacheGatherKernelConfig, cell: Seq<u32>) -> bool {
        cell.len() == 2
    }

    open spec fn enumerates(config: DeepseekV4PackedCacheGatherKernelConfig) -> bool {
        true
    }

    open spec fn fields(
        config: DeepseekV4PackedCacheGatherKernelConfig,
        cell: Seq<u32>,
        backend: Seq<char>,
    ) -> Map<Seq<char>, WireValue> {
        let (seq_lens, gather_lens) = canonical_lens(config, cell[0] as int, cell[1] as int);
        Map::<Seq<char>, WireValue>::empty()
            .insert("seq_lens"@, WireValue::Numbers(seq_lens))
            .insert("gather_lens"@, WireValue::Numbers(gather_lens))
            .insert("workspace_rows"@, WireValue::Number(config.workspace_rows as nat))
            .insert("block_table_width"@, WireValue::Number(config.block_table_width as nat))
            .insert("block_size"@, WireValue::Number(config.block_size as nat))
            .insert("offset"@, WireValue::Number(config.offset as nat))
            .insert("num_kv_heads"@, WireValue::Number(config.num_kv_heads as nat))
            .insert("head_dim"@, WireValue::Number(config.head_dim@.fold() as nat))
            .insert("fp8_dim"@, WireValue::Number(config.fp8_dim as nat))
            .insert("quant_group_size"@, WireValue::Number(config.quant_group_size as nat))
            .insert("cache_dtype"@, WireValue::Text(config.cache_dtype@))
            .insert("output_dtype"@, WireValue::Text(dtype_text(config.output_dtype)))
            .insert("cache_layout"@, WireValue::Text(config.cache_layout@))
            .insert("scale_format"@, WireValue::Text(config.scale_format@))
            .insert("backend"@, WireValue::Text(backend))
    }

    fn can_enumerate(config: &DeepseekV4PackedCacheGatherKernelConfig) -> (r: bool) {
        true
    }

    fn cell_payload(
        config: &DeepseekV4PackedCacheGatherKernelConfig,
        cell: &Vec<u32>,
        backend: &str,
    ) -> (r: ArgsPayload) {
        let input = canonical_input(config, cell[0], cell[1]);
        ArgsPayload::new()
            .with("seq_lens", PayloadValue::Numbers(input.seq_lens))
            .with("gather_lens", PayloadValue::Numbers(input.gather_lens))
            .with("workspace_rows", number_value(config.workspace_rows))
            .with("block_table_width", number_value(config.block_table_width))
            .with("block_size", number_value(config.block_size))
            .with("offset", number_value(config.offset))
            .with("num_kv_heads", number_value(config.num_kv_heads))
            .with("head_dim", number_value(config.head_dim.get()))
            .with("fp8_dim", number_value(config.fp8_dim))
            .with("quant_group_size", number_value(config.quant_group_size))
            .with("cache_dtype", text_value(config.cache_dtype.as_str()))
            .with("output_dtype", text_value(config.output_dtype.as_str()))
            .with("cache_layout", text_value(config.cache_layout.as_str()))
            .with("scale_format", text_value(config.scale_format.as_str()))
            .with("backend", text_value(backend))
    }

    proof fn sweep_is_covered(
        config: DeepseekV4PackedCacheGatherKernelConfig,
        tokens: Seq<u32>,
        index: nat,
    ) {
        cell_on_axes(Self::axes(config, tokens), index);
    }

    proof fn fields_name_backend(
        config: DeepseekV4PackedCacheGatherKernelConfig,
        cell: Seq<u32>,
        backend: Seq<char>,
    ) {
    }

    open spec fn describes(
        config: DeepseekV4PackedCacheGatherKernelConfig,
        fields: Map<Seq<char>, WireValue>,
        input: DeepseekV4PackedCacheGatherKernelInput,
    ) -> bool {
        &&& numbers_at(fields, "seq_lens"@) == input.seq_lens@
        &&& numbers_at(fields, "gather_lens"@) == input.gather_lens@
    }

    open spec fn occurs(config: DeepseekV4PackedCacheGatherKernelConfig, cell: Seq<u32>) -> bool {
        true
    }

    open spec fn kept_back() -> Set<Seq<char>> {
        set![
            "backends"@,
            "gpu_name"@,
            "mode"@,
            "suffix_sequence_len"@,
            "max_gather_rows"@,
            "kv_dtype"@,
        ]
    }

    proof fn payload_stands_at_its_cell(
        config: DeepseekV4PackedCacheGatherKernelConfig,
        tokens: Seq<u32>,
        index: nat,
        backend: Seq<char>,
        input: DeepseekV4PackedCacheGatherKernelInput,
    ) {
        cell_on_axes(Self::axes(config, tokens), index);
        reveal_strlit("seq_lens");
        reveal_strlit("gather_lens");
        reveal_strlit("workspace_rows");
        reveal_strlit("block_table_width");
        reveal_strlit("block_size");
        reveal_strlit("offset");
        reveal_strlit("num_kv_heads");
        reveal_strlit("head_dim");
        reveal_strlit("fp8_dim");
        reveal_strlit("quant_group_size");
        reveal_strlit("cache_dtype");
        reveal_strlit("output_dtype");
        reveal_strlit("cache_layout");
        reveal_strlit("scale_format");
        reveal_strlit("backend");
        assert("seq_lens"@.len() == 8 && "seq_lens"@[0] == 's');
        assert("gather_lens"@.len() == 11 && "gather_lens"@[0] == 'g');
        assert("workspace_rows"@.len() == 14);
        assert("block_table_width"@.len() == 17);
        assert("block_size"@.len() == 10);
        assert("offset"@.len() == 6);
        assert("num_kv_heads"@.len() == 12);
        assert("head_dim"@.len() == 8 && "head_dim"@[0] == 'h');
        assert("fp8_dim"@.len() == 7);
        assert("quant_group_size"@.len() == 16);
        assert("cache_dtype"@.len() == 11 && "cache_dtype"@[0] == 'c');
        assert("output_dtype"@.len() == 12);
        assert("cache_layout"@.len() == 12);
        assert("scale_format"@.len() == 12);
        assert("backend"@.len() == 7);
        let cell = cell_at(Self::axes(config, tokens), index);
        let requests = cell[0] as int;
        let rows = cell[1] as int;
        assert(Self::axes(config, tokens)[0].contains(cell[0]));
        assert(Self::axes(config, tokens)[1].contains(cell[1]));
        assert(1 <= requests <= 4);
        at_most_keeps(selected_points(), config.max_gather_rows as int, cell[1]);
        canonical_lens_project_back(config, requests, rows);
        assert(0 <= rows * requests <= u64::MAX) by (nonlinear_arith)
            requires
                0 <= rows <= u32::MAX,
                1 <= requests <= 4,
        ;
        let at = Self::table_position(config, input);
        assert(at[0] == whole(cell[0] as int));
        assert(at[1].numerator == cell[1] * at[1].denominator);
        stands_on_whole_units(at, cell, Self::units(Self::axes(config, tokens)));
    }

    proof fn payload_carries_config(
        config: DeepseekV4PackedCacheGatherKernelConfig,
        cell: Seq<u32>,
        backend: Seq<char>,
        i: int,
    ) {
        reveal_strlit("workspace_rows");
        reveal_strlit("block_table_width");
        reveal_strlit("block_size");
        reveal_strlit("offset");
        reveal_strlit("num_kv_heads");
        reveal_strlit("head_dim");
        reveal_strlit("fp8_dim");
        reveal_strlit("quant_group_size");
        reveal_strlit("cache_dtype");
        reveal_strlit("output_dtype");
        reveal_strlit("cache_layout");
        reveal_strlit("scale_format");
        reveal_strlit("backend");
        assert("workspace_rows"@.len() == 14);
        assert("block_table_width"@.len() == 17);
        assert("block_size"@.len() == 10);
        assert("offset"@.len() == 6);
        assert("num_kv_heads"@.len() == 12 && "num_kv_heads"@[0] == 'n');
        assert("head_dim"@.len() == 8);
        assert("fp8_dim"@.len() == 7 && "fp8_dim"@[0] == 'f');
        assert("quant_group_size"@.len() == 16);
        assert("cache_dtype"@.len() == 11);
        assert("output_dtype"@.len() == 12 && "output_dtype"@[0] == 'o');
        assert("cache_layout"@.len() == 12 && "cache_layout"@[0] == 'c');
        assert("scale_format"@.len() == 12 && "scale_format"@[0] == 's');
        assert("backend"@.len() == 7 && "backend"@[0] == 'b');
        let fields = Self::fields(config, cell, backend);
        let terms = config.description();
        assert(carries(fields, terms[5]));
        assert(carries(fields, terms[6]));
        assert(carries(fields, terms[7]));
        assert(carries(fields, terms[8]));
        assert(carries(fields, terms[9]));
        assert(carries(fields, terms[10]));
        assert(carries(fields, terms[11]));
        assert(carries(fields, terms[12]));
        assert(carries(fields, terms[14]));
        assert(carries(fields, terms[15]));
        assert(carries(fields, terms[16]));
        assert(carries(fields, terms[17]));
    }

    proof fn described_alike_is_profiled_alike(
        a: DeepseekV4PackedCacheGatherKernelConfig,
        b: DeepseekV4PackedCacheGatherKernelConfig,
        tokens: Seq<u32>,
        cell: Seq<u32>,
        backend: Seq<char>,
    ) {
        let (x, y) = (a.description(), b.description());
        assert(x[0] == y[0]);
        assert(x[1] == y[1]);
        assert(x[2] == y[2]);
        assert(x[3] == y[3]);
        assert(x[4] == y[4]);
        assert(x[5] == y[5]);
        assert(x[6] == y[6]);
        assert(x[7] == y[7]);
        assert(x[8] == y[8]);
        assert(x[9] == y[9]);
        assert(x[10] == y[10]);
        assert(x[11] == y[11]);
        assert(x[12] == y[12]);
        assert(x[13] == y[13]);
        assert(x[14] == y[14]);
        assert(x[15] == y[15]);
        assert(x[16] == y[16]);
        assert(x[17] == y[17]);
        reveal_strlit("full");
        reveal_strlit("suffix");
        assert("full"@.len() == 4 && "suffix"@.len() == 6);
        assert(mode_term(a.mode) == mode_term(b.mode));
        assert(a.mode == b.mode);
    }
}

/// Two batches taken together have the requests of both, and a mean of gathered rows that
/// weighs each by its requests.
pub proof fn joined_batches_add_up(
    a: DeepseekV4PackedCacheGatherKernelInput,
    b: DeepseekV4PackedCacheGatherKernelInput,
    both: DeepseekV4PackedCacheGatherKernelInput,
)
    requires
        a.well_shaped(),
        b.well_shaped(),
        both.well_shaped(),
        a.gather_lens@.len() == 0 <==> b.gather_lens@.len() == 0,
        both.seq_lens@ == a.seq_lens@ + b.seq_lens@,
        both.gather_lens@ == a.gather_lens@ + b.gather_lens@,
    ensures
        both.position()[0].numerator == a.position()[0].numerator + b.position()[0].numerator,
        both.position()[1].numerator == a.position()[1].numerator + b.position()[1].numerator,
        both.position()[1].denominator == a.position()[1].denominator
            + b.position()[1].denominator,
{
    total_of_joined(a.seq_lens@, b.seq_lens@);
    total_of_joined(a.gather_lens@, b.gather_lens@);
    total_in_range(a.seq_lens@);
    total_in_range(b.seq_lens@);
    total_in_range(a.gather_lens@);
    total_in_range(b.gather_lens@);
}

/// Where every sequence is gathered in full, it does not matter whether that is said.
pub proof fn full_gather_needs_no_lengths(
    a: DeepseekV4PackedCacheGatherKernelInput,
    b: DeepseekV4PackedCacheGatherKernelInput,
)
    requires
        b.seq_lens@ == a.seq_lens@,
        a.gather_lens@ == a.seq_lens@,
        b.gather_lens@.len() == 0,
    ensures
        b.position() == a.position(),
{
    assert(b.position() =~= a.position());
}

/// The kernel computes in the precision that is described as `output_dtype` and keeps its
/// cache in the precision that is described as `kv_dtype`.
pub proof fn precisions_are_described(config: DeepseekV4PackedCacheGatherKernelConfig)
    ensures
        config.compute() matches Some(precision) && config.description()[15] == (
            "output_dtype"@,
            ConfigTerm::Precision(precision),
        ),
        config.kv() matches Some(precision) && config.description()[13] == (
            "kv_dtype"@,
            ConfigTerm::Precision(precision),
        ),
{
}

} // verus!
