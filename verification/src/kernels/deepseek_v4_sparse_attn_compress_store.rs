//! Compression of attention state into the packed cache, and its store.
//!
//! Saving partial state scales with all rows; compressing and storing scales with the rows
//! that end a compression block. The table is built over both counts, with powers of two
//! as anchors. Which rows end a block depends on the compression ratio, so a query is
//! placed on the table with the configuration at hand.

use crate::bridge::payload::{
    dtype_text, number_value, text_value, ArgsPayload, DType, KernelKind, PayloadValue, Real,
    WireValue,
};
use crate::cache::{CacheKind, Extrapolation};
use crate::dims::Dim;
use crate::kernels::compact_counts::min_int;
use crate::kernels::config::{
    dimension_of, field, fields_view, names_of, number_of, precision_of, text_of, ConfigField,
    ConfigTerm, KernelConfig,
};
use crate::kernels::deepseek_v4_fused_q_kv_rmsnorm::EPS_1E6_BITS;
use crate::kernels::engine::{
    carries, number_at, numbers_at, standing_is_value, stands_at, stands_on_whole_units,
    whole_units, CellPayloads, KernelSpec, SweepCoords,
};
use crate::sweep::{
    cell_at, cell_on_axes, chained, chained_keeps_some, pow2_points, pow2_points_within, two_to,
    whole, Axis, Ratio, SweepGrid,
};
use crate::text::text_eq;
use vstd::prelude::*;

verus! {

#[derive(Clone, Debug, PartialEq, Eq, Hash)]
pub struct DeepseekV4SparseAttnCompressStoreKernelConfig {
    pub backends: Vec<&'static str>,
    pub gpu_name: String,
    pub compress_ratio: u32,
    pub num_kv_heads: u32,
    pub head_dim: Dim,
    pub rope_head_dim: Dim,
    pub logical_block_size: u32,
    pub state_dtype: DType,
    pub norm_dtype: DType,
    pub kv_dtype: DType,
    pub cache_dtype: String,
    pub cache_layout: String,
    pub scale_format: String,
}

impl KernelConfig for DeepseekV4SparseAttnCompressStoreKernelConfig {
    const BACKENDS_FIELD: &'static str = "DeepseekV4SparseAttnCompressStoreKernelConfig.backends";

    open spec fn candidates(&self) -> Seq<&'static str> {
        self.backends@
    }

    open spec fn gpu(&self) -> Seq<char> {
        self.gpu_name@
    }

    open spec fn compute(&self) -> Option<DType> {
        Some(self.state_dtype)
    }

    open spec fn kv(&self) -> Option<DType> {
        Some(self.kv_dtype)
    }

    open spec fn description(&self) -> Seq<(Seq<char>, ConfigTerm)> {
        seq![
            ("backends"@, ConfigTerm::Names(self.backends@)),
            ("gpu_name"@, ConfigTerm::Text(self.gpu_name@)),
            ("compress_ratio"@, ConfigTerm::Number(self.compress_ratio as nat)),
            ("num_kv_heads"@, ConfigTerm::Number(self.num_kv_heads as nat)),
            ("head_dim"@, ConfigTerm::Dimension(self.head_dim@)),
            ("rope_head_dim"@, ConfigTerm::Dimension(self.rope_head_dim@)),
            ("logical_block_size"@, ConfigTerm::Number(self.logical_block_size as nat)),
            ("state_dtype"@, ConfigTerm::Precision(self.state_dtype)),
            ("norm_dtype"@, ConfigTerm::Precision(self.norm_dtype)),
            ("kv_dtype"@, ConfigTerm::Precision(self.kv_dtype)),
            ("cache_dtype"@, ConfigTerm::Text(self.cache_dtype@)),
            ("cache_layout"@, ConfigTerm::Text(self.cache_layout@)),
            ("scale_format"@, ConfigTerm::Text(self.scale_format@)),
        ]
    }

    fn backends(&self) -> (r: &Vec<&'static str>) {
        &self.backends
    }

    fn gpu_name(&self) -> (r: &str) {
        self.gpu_name.as_str()
    }

    fn compute_dtype(&self) -> (r: Option<DType>) {
        Some(self.state_dtype)
    }

    fn kv_dtype(&self) -> (r: Option<DType>) {
        Some(self.kv_dtype)
    }

    fn describe_config(&self) -> (r: Vec<ConfigField>) {
        let r: Vec<ConfigField> = vec![
            field("backends", names_of(&self.backends)),
            field("gpu_name", text_of(self.gpu_name.as_str())),
            field("compress_ratio", number_of(self.compress_ratio)),
            field("num_kv_heads", number_of(self.num_kv_heads)),
            field("head_dim", dimension_of(&self.head_dim)),
            field("rope_head_dim", dimension_of(&self.rope_head_dim)),
            field("logical_block_size", number_of(self.logical_block_size)),
            field("state_dtype", precision_of(self.state_dtype)),
            field("norm_dtype", precision_of(self.norm_dtype)),
            field("kv_dtype", precision_of(self.kv_dtype)),
            field("cache_dtype", text_of(self.cache_dtype.as_str())),
            field("cache_layout", text_of(self.cache_layout.as_str())),
            field("scale_format", text_of(self.scale_format.as_str())),
        ];
        assert(fields_view(r@) =~= self.description());
        r
    }
}

/// The rows of a launch: each row's position in its request, and that request.
#[derive(Clone, Debug, PartialEq, Eq, Hash)]
pub struct DeepseekV4SparseAttnCompressStoreKernelInput {
    pub row_positions: Vec<u32>,
    pub row_request_ids: Vec<u32>,
    pub state_block_table_width: u32,
}

/// Whether the requests of the rows are numbered from zero without a gap, at most 64
/// of them.
pub open spec fn request_ids_ok(ids: Seq<u32>) -> bool {
    exists|count: int| #[trigger] numbers_up_to(ids, count) && 0 < count <= 64
}

pub open spec fn numbers_up_to(ids: Seq<u32>, count: int) -> bool {
    &&& forall|i: int| 0 <= i < ids.len() ==> #[trigger] ids[i] < count
    &&& forall|id: u32| id < count ==> #[trigger] ids.contains(id)
}

/// Whether a launch can be placed on the table.
pub open spec fn rows_ok(input: DeepseekV4SparseAttnCompressStoreKernelInput) -> bool {
    &&& 0 < input.row_positions@.len() <= 8192
    &&& input.row_positions@.len() == input.row_request_ids@.len()
    &&& input.state_block_table_width > 0
    &&& request_ids_ok(input.row_request_ids@)
    &&& forall|i: int|
        0 <= i < input.row_positions@.len() ==> #[trigger] input.row_positions@[i] < u32::MAX
}

/// Whether the requests of the rows are numbered from zero without a gap, at most 64
/// of them.
fn numbers_requests(ids: &Vec<u32>) -> (r: bool)
    ensures
        r == (ids@.len() > 0 && request_ids_ok(ids@)),
{
    let mut count: u32 = 0;
    let mut i: usize = 0;
    while i < ids.len()
        invariant
            i <= ids@.len(),
            count <= 64,
            i > 0 ==> count > 0,
            forall|j: int| 0 <= j < i ==> #[trigger] ids@[j] < count,
            count > 0 ==> exists|j: int| 0 <= j < i && #[trigger] ids@[j] == count - 1,
        decreases ids@.len() - i,
    {
        if ids[i] >= 64 {
            assert(!request_ids_ok(ids@)) by {
                if request_ids_ok(ids@) {
                    let limit = choose|limit: int| #[trigger]
                        numbers_up_to(ids@, limit) && 0 < limit <= 64;
                    assert(ids@[i as int] < limit);
                }
            }
            return false;
        }
        if ids[i] >= count {
            count = ids[i] + 1;
        }
        i += 1;
    }
    if count == 0 {
        return false;
    }
    let mut id: u32 = 0;
    while id < count
        invariant
            id <= count <= 64,
            0 < count,
            forall|j: int| 0 <= j < ids@.len() ==> #[trigger] ids@[j] < count,
            exists|j: int| 0 <= j < ids@.len() && #[trigger] ids@[j] == count - 1,
            forall|k: u32| k < id ==> #[trigger] ids@.contains(k),
        decreases count - id,
    {
        if !holds_id(ids, id) {
            assert(!request_ids_ok(ids@)) by {
                if request_ids_ok(ids@) {
                    let limit = choose|limit: int| #[trigger]
                        numbers_up_to(ids@, limit) && 0 < limit <= 64;
                    let top = choose|j: int| 0 <= j < ids@.len() && #[trigger] ids@[j] == count - 1;
                    assert(ids@[top] < limit);
                    assert(ids@.contains(id));
                }
            }
            return false;
        }
        id += 1;
    }
    assert(numbers_up_to(ids@, count as int));
    true
}

fn holds_id(ids: &Vec<u32>, id: u32) -> (r: bool)
    ensures
        r == ids@.contains(id),
{
    let mut i: usize = 0;
    while i < ids.len()
        invariant
            i <= ids@.len(),
            forall|j: int| 0 <= j < i ==> #[trigger] ids@[j] != id,
        decreases ids@.len() - i,
    {
        if ids[i] == id {
            assert(ids@[i as int] == id);
            return true;
        }
        i += 1;
    }
    false
}

/// Whether a launch can be placed on the table.
pub fn can_place_rows(input: &DeepseekV4SparseAttnCompressStoreKernelInput) -> (r: bool)
    ensures
        r == rows_ok(*input),
{
    let rows: usize = input.row_positions.len();
    if rows == 0 || rows > 8192 || rows != input.row_request_ids.len() {
        return false;
    }
    let mut i: usize = 0;
    while i < rows
        invariant
            i <= rows,
            rows == input.row_positions@.len(),
            forall|j: int| 0 <= j < i ==> #[trigger] input.row_positions@[j] < u32::MAX,
        decreases rows - i,
    {
        if input.row_positions[i] == u32::MAX {
            return false;
        }
        i += 1;
    }
    input.state_block_table_width > 0 && numbers_requests(&input.row_request_ids)
}

/// Whether the row at `position` is the last of its compression block.
pub open spec fn ends_block(position: int, compress_ratio: int) -> bool {
    (position + 1) % compress_ratio == 0
}

/// How many of the rows end a compression block.
pub open spec fn block_ends(positions: Seq<u32>, compress_ratio: int) -> nat
    decreases positions.len(),
{
    if positions.len() == 0 {
        0
    } else {
        block_ends(positions.drop_last(), compress_ratio) + if ends_block(
            positions.last() as int,
            compress_ratio,
        ) {
            1nat
        } else {
            0
        }
    }
}

impl DeepseekV4SparseAttnCompressStoreKernelInput {
    /// The number of rows, and how many of them end a compression block.
    pub fn work(&self, compress_ratio: u32) -> (r: (u32, u32))
        requires
            rows_ok(*self),
            compress_ratio > 0,
        ensures
            r.0 == self.row_positions@.len(),
            r.1 == block_ends(self.row_positions@, compress_ratio as int),
            r.1 <= r.0,
    {
        let mut active: u32 = 0;
        let mut i: usize = 0;
        assert(self.row_positions@.take(0) =~= Seq::<u32>::empty());
        while i < self.row_positions.len()
            invariant
                i <= self.row_positions@.len() <= 8192,
                rows_ok(*self),
                compress_ratio > 0,
                active <= i,
                active == block_ends(self.row_positions@.take(i as int), compress_ratio as int),
            decreases self.row_positions@.len() - i,
        {
            proof {
                let next = self.row_positions@.take(i + 1);
                assert(next.drop_last() =~= self.row_positions@.take(i as int));
                assert(next.last() == self.row_positions@[i as int]);
            }
            if (self.row_positions[i] + 1) % compress_ratio == 0 {
                active = active + 1;
            }
            i += 1;
        }
        assert(self.row_positions@.take(i as int) =~= self.row_positions@);
        (self.row_positions.len() as u32, active)
    }
}

impl SweepCoords for DeepseekV4SparseAttnCompressStoreKernelInput {
    open spec fn well_shaped(&self) -> bool {
        true
    }

    open spec fn position(&self) -> Seq<Ratio> {
        seq![whole(self.row_positions@.len() as int), whole(0)]
    }

    open spec fn axis_names() -> Seq<Seq<char>> {
        seq!["num_tokens"@, "num_active_tokens"@]
    }

    fn is_well_shaped(&self) -> (r: bool) {
        true
    }

    fn coords(&self) -> (r: Vec<Ratio>) {
        let r: Vec<Ratio> = vec![
            Ratio { numerator: self.row_positions.len() as u64, denominator: 1 },
            Ratio::from_whole(0),
        ];
        assert(r@ =~= self.position());
        r
    }

    fn coord_field_names() -> (r: Vec<&'static str>) {
        let r: Vec<&'static str> = vec!["num_tokens", "num_active_tokens"];
        assert(r@.map_values(|name: &'static str| name@) =~= Self::axis_names());
        r
    }
}

/// The requests that `tokens` rows are dealt out to, in turn.
pub open spec fn request_slots(tokens: int) -> int {
    min_int(tokens, 64)
}

pub open spec fn dealt_ids(tokens: int) -> Seq<u32> {
    Seq::new(tokens as nat, |row: int| (row % request_slots(tokens)) as u32)
}

/// Row `row` of a request is the last row of a block, or the first one.
pub open spec fn dealt_position(tokens: int, active: int, compress_ratio: int, row: int) -> int {
    let block = row / request_slots(tokens);
    if row < active {
        compress_ratio - 1 + block * compress_ratio
    } else {
        block * compress_ratio
    }
}

pub open spec fn dealt_positions(tokens: int, active: int, compress_ratio: int) -> Seq<u32> {
    Seq::new(
        tokens as nat,
        |row: int| dealt_position(tokens, active, compress_ratio, row) as u32,
    )
}

/// The largest of the positions, or zero if there are none.
pub open spec fn largest(positions: Seq<u32>) -> int
    decreases positions.len(),
{
    if positions.len() == 0 {
        0
    } else {
        let before = largest(positions.drop_last());
        if positions.last() > before {
            positions.last() as int
        } else {
            before
        }
    }
}

/// The columns of a state block table that reaches every position.
pub open spec fn table_width(positions: Seq<u32>, compress_ratio: int) -> int {
    largest(positions) / (if compress_ratio == 4 {
        4int
    } else {
        8
    }) + 1
}

/// Whether the positions of the dealt rows are in range.
pub open spec fn deal_fits(tokens: int, compress_ratio: int) -> bool {
    compress_ratio > 0 && (tokens > 0 ==> ((tokens - 1) / request_slots(tokens) + 1)
        * compress_ratio - 1 <= u32::MAX)
}

/// Every dealt position is in range.
proof fn dealt_position_fits(tokens: int, active: int, compress_ratio: int, row: int)
    requires
        deal_fits(tokens, compress_ratio),
        0 <= row < tokens,
    ensures
        0 <= row / request_slots(tokens) <= (tokens - 1) / request_slots(tokens),
        0 <= (row / request_slots(tokens)) * compress_ratio,
        compress_ratio - 1 + (row / request_slots(tokens)) * compress_ratio <= u32::MAX,
        0 <= dealt_position(tokens, active, compress_ratio, row) <= u32::MAX,
{
    let slots = request_slots(tokens);
    let block = row / slots;
    let last = (tokens - 1) / slots;
    assert(0 <= block <= last) by (nonlinear_arith)
        requires
            0 <= row <= tokens - 1,
            slots > 0,
            block == row / slots,
            last == (tokens - 1) / slots,
    ;
    assert(0 <= block * compress_ratio && compress_ratio - 1 + block * compress_ratio <= (last + 1)
        * compress_ratio - 1) by (nonlinear_arith)
        requires
            0 <= block <= last,
            compress_ratio > 0,
    ;
}

/// A launch of `num_tokens` rows of which the first `num_active_tokens` end a block.
pub fn canonical_input(num_tokens: u32, num_active_tokens: u32, compress_ratio: u32) -> (r:
    DeepseekV4SparseAttnCompressStoreKernelInput)
    requires
        deal_fits(num_tokens as int, compress_ratio as int),
    ensures
        r.row_request_ids@ == dealt_ids(num_tokens as int),
        r.row_positions@ == dealt_positions(
            num_tokens as int,
            num_active_tokens as int,
            compress_ratio as int,
        ),
        r.state_block_table_width == table_width(r.row_positions@, compress_ratio as int),
{
    let slots: u32 = if num_tokens <= 64 {
        num_tokens
    } else {
        64
    };
    let mut ids: Vec<u32> = Vec::new();
    let mut positions: Vec<u32> = Vec::new();
    let mut top: u32 = 0;
    let mut row: u32 = 0;
    assert(positions@ =~= Seq::<u32>::empty());
    while row < num_tokens
        invariant
            row <= num_tokens,
            slots == request_slots(num_tokens as int),
            deal_fits(num_tokens as int, compress_ratio as int),
            ids@.len() == row,
            positions@.len() == row,
            top == largest(positions@),
            forall|j: int| 0 <= j < row ==> #[trigger] ids@[j] == (j % (slots as int)) as u32,
            forall|j: int|
                0 <= j < row ==> #[trigger] positions@[j] == dealt_position(
                    num_tokens as int,
                    num_active_tokens as int,
                    compress_ratio as int,
                    j,
                ) as u32,
        decreases num_tokens - row,
    {
        proof {
            dealt_position_fits(
                num_tokens as int,
                num_active_tokens as int,
                compress_ratio as int,
                row as int,
            );
        }
        let block: u32 = row / slots;
        let position: u32 = if row < num_active_tokens {
            compress_ratio - 1 + block * compress_ratio
        } else {
            block * compress_ratio
        };
        let ghost before = positions@;
        ids.push(row % slots);
        positions.push(position);
        assert(positions@.drop_last() =~= before);
        if position > top {
            top = position;
        }
        row += 1;
    }
    assert(ids@ =~= dealt_ids(num_tokens as int));
    assert(positions@ =~= dealt_positions(
        num_tokens as int,
        num_active_tokens as int,
        compress_ratio as int,
    ));
    let block_size: u32 = if compress_ratio == 4 {
        4
    } else {
        8
    };
    DeepseekV4SparseAttnCompressStoreKernelInput {
        row_positions: positions,
        row_request_ids: ids,
        state_block_table_width: top / block_size + 1,
    }
}

/// How many of the first dealt rows end a block.
proof fn dealt_block_ends(tokens: int, active: int, compress_ratio: int, n: int)
    requires
        0 <= n <= tokens,
        0 <= active <= tokens,
        compress_ratio >= 2,
        deal_fits(tokens, compress_ratio),
    ensures
        block_ends(dealt_positions(tokens, active, compress_ratio).take(n), compress_ratio)
            == min_int(n, active),
    decreases n,
{
    let all = dealt_positions(tokens, active, compress_ratio);
    if n > 0 {
        dealt_block_ends(tokens, active, compress_ratio, n - 1);
        assert(all.take(n).drop_last() =~= all.take(n - 1));
        let row = n - 1;
        dealt_position_fits(tokens, active, compress_ratio, row);
        let block = row / request_slots(tokens);
        assert(compress_ratio * block == block * compress_ratio) by (nonlinear_arith);
        vstd::arithmetic::div_mod::lemma_mod_self_0(compress_ratio);
        vstd::arithmetic::div_mod::lemma_small_mod(1, compress_ratio as nat);
        vstd::arithmetic::div_mod::lemma_mod_multiples_vanish(block, compress_ratio, compress_ratio);
        vstd::arithmetic::div_mod::lemma_mod_multiples_vanish(block, 1, compress_ratio);
    }
}

/// The launch made for a cell is one that can be placed on the table, it stands at
/// that cell, and the positions of each of its requests ascend.
pub proof fn canonical_input_projects_back(
    input: DeepseekV4SparseAttnCompressStoreKernelInput,
    tokens: int,
    active: int,
    compress_ratio: int,
)
    requires
        1 <= tokens <= 8192,
        0 <= active <= tokens,
        compress_ratio >= 2,
        deal_fits(tokens, compress_ratio),
        (tokens - 1) / request_slots(tokens) * compress_ratio + compress_ratio - 1 < u32::MAX,
        input.row_request_ids@ == dealt_ids(tokens),
        input.row_positions@ == dealt_positions(tokens, active, compress_ratio),
        input.state_block_table_width == table_width(input.row_positions@, compress_ratio),
    ensures
        rows_ok(input),
        input.row_positions@.len() == tokens,
        block_ends(input.row_positions@, compress_ratio) == active,
        forall|i: int, j: int|
            0 <= i < j < tokens && #[trigger] input.row_request_ids@[i]
                == #[trigger] input.row_request_ids@[j] ==> input.row_positions@[i]
                < input.row_positions@[j],
{
    let slots = request_slots(tokens);
    let ids = input.row_request_ids@;
    let positions = input.row_positions@;
    dealt_block_ends(tokens, active, compress_ratio, tokens);
    assert(positions.take(tokens) =~= positions);
    assert(numbers_up_to(ids, slots)) by {
        assert forall|i: int| 0 <= i < ids.len() implies #[trigger] ids[i] < slots by {
            assert(0 <= i % slots < slots) by (nonlinear_arith)
                requires
                    slots > 0,
            ;
        }
        assert forall|id: u32| id < slots implies #[trigger] ids.contains(id) by {
            vstd::arithmetic::div_mod::lemma_small_mod(id as nat, slots as nat);
            assert(ids[id as int] == id);
        }
    }
    largest_not_negative(positions);
    let last = (tokens - 1) / slots;
    assert forall|i: int| 0 <= i < positions.len() implies #[trigger] positions[i] < u32::MAX by {
        dealt_position_fits(tokens, active, compress_ratio, i);
        let block = i / slots;
        assert(block * compress_ratio <= last * compress_ratio) by (nonlinear_arith)
            requires
                block <= last,
                compress_ratio >= 2,
        ;
    }
    assert forall|i: int, j: int|
        0 <= i < j < tokens && #[trigger] ids[i] == #[trigger] ids[j] implies positions[i]
        < positions[j] by {
        dealt_position_fits(tokens, active, compress_ratio, i);
        dealt_position_fits(tokens, active, compress_ratio, j);
        let a = i / slots;
        let b = j / slots;
        assert(0 <= i % slots < slots && 0 <= j % slots < slots && i == slots * a + i % slots && j
            == slots * b + j % slots) by (nonlinear_arith)
            requires
                slots > 0,
                a == i / slots,
                b == j / slots,
        ;
        assert(a < b) by (nonlinear_arith)
            requires
                slots * a < slots * b,
                slots > 0,
        ;
        assert(compress_ratio - 1 + a * compress_ratio < b * compress_ratio) by (nonlinear_arith)
            requires
                a < b,
                compress_ratio >= 2,
        ;
    }
}

proof fn largest_not_negative(positions: Seq<u32>)
    ensures
        largest(positions) >= 0,
    decreases positions.len(),
{
    if positions.len() > 0 {
        largest_not_negative(positions.drop_last());
    }
}

/// Whether a list of backends is the one named.
pub open spec fn only_backend(backends: Seq<&'static str>, name: Seq<char>) -> bool {
    backends.len() == 1 && backends[0]@ == name
}

/// Whether the compressor can be launched under a configuration.
pub open spec fn compressor_ok(config: DeepseekV4SparseAttnCompressStoreKernelConfig) -> bool {
    &&& config.gpu_name@ == "NVIDIA H200"@
    &&& config.num_kv_heads == 1
    &&& config.rope_head_dim@.fold() == 64
    &&& config.logical_block_size == 256
    &&& config.state_dtype == DType::Fp32
    &&& config.norm_dtype == DType::Bf16
    &&& config.kv_dtype == DType::Fp8E4m3
    &&& config.cache_layout@ == "block_segregated_data_then_scales"@
    &&& {
        ||| {
            &&& config.head_dim@.fold() == 512
            &&& config.compress_ratio == 4 || config.compress_ratio == 128
            &&& only_backend(config.backends@, "vllm_deepseek_v4_cutedsl"@)
            &&& config.cache_dtype@ == "fp8_ds_mla"@
            &&& config.scale_format@ == "ue8m0"@
        }
        ||| {
            &&& config.head_dim@.fold() == 128
            &&& config.compress_ratio == 4
            &&& only_backend(config.backends@, "vllm_deepseek_v4_triton"@)
            &&& config.cache_dtype@ == "fp8_indexer"@
            &&& config.scale_format@ == "fp32_per_token"@
        }
    }
}

/// Whether the compressor can be launched under a configuration.
pub fn validate_config(config: &DeepseekV4SparseAttnCompressStoreKernelConfig) -> (r: bool)
    ensures
        r == compressor_ok(*config),
{
    if !(text_eq(config.gpu_name.as_str(), "NVIDIA H200") && config.num_kv_heads == 1
        && config.rope_head_dim.get() == 64 && config.logical_block_size == 256
        && config.state_dtype == DType::Fp32 && config.norm_dtype == DType::Bf16 && config.kv_dtype
        == DType::Fp8E4m3 && text_eq(
        config.cache_layout.as_str(),
        "block_segregated_data_then_scales",
    ) && config.backends.len() == 1) {
        return false;
    }
    let head_dim: u32 = config.head_dim.get();
    let backend: &str = config.backends[0];
    if head_dim == 512 {
        (config.compress_ratio == 4 || config.compress_ratio == 128) && text_eq(
            backend,
            "vllm_deepseek_v4_cutedsl",
        ) && text_eq(config.cache_dtype.as_str(), "fp8_ds_mla") && text_eq(
            config.scale_format.as_str(),
            "ue8m0",
        )
    } else {
        head_dim == 128 && config.compress_ratio == 4 && text_eq(
            backend,
            "vllm_deepseek_v4_triton",
        ) && text_eq(config.cache_dtype.as_str(), "fp8_indexer") && text_eq(
            config.scale_format.as_str(),
            "fp32_per_token",
        )
    }
}

pub struct DeepseekV4SparseAttnCompressStoreSpec;

impl KernelSpec for DeepseekV4SparseAttnCompressStoreSpec {
    type Config = DeepseekV4SparseAttnCompressStoreKernelConfig;

    type Input = DeepseekV4SparseAttnCompressStoreKernelInput;

    const KIND: KernelKind = "deepseek_v4_sparse_attn_compress_store";

    open spec fn admits(config: DeepseekV4SparseAttnCompressStoreKernelConfig) -> bool {
        compressor_ok(config)
    }

    open spec fn axes(
        config: DeepseekV4SparseAttnCompressStoreKernelConfig,
        tokens: Seq<u32>,
    ) -> Seq<Seq<u32>> {
        seq![pow2_points(0, 13), chained(seq![0u32], pow2_points(0, 13))]
    }

    open spec fn units(axes: Seq<Seq<u32>>) -> Seq<u32> {
        whole_units(axes)
    }

    open spec fn table(backend: Seq<char>) -> CacheKind {
        CacheKind::Cache2DLinear(Extrapolation::Weighted)
    }

    open spec fn masks() -> bool {
        true
    }

    open spec fn judges(
        config: DeepseekV4SparseAttnCompressStoreKernelConfig,
        cell: Seq<u32>,
    ) -> bool {
        cell.len() == 2
    }

    open spec fn infeasible(
        config: DeepseekV4SparseAttnCompressStoreKernelConfig,
        cell: Seq<u32>,
    ) -> bool {
        cell[1] > cell[0]
    }

    open spec fn table_position(
        config: DeepseekV4SparseAttnCompressStoreKernelConfig,
        input: DeepseekV4SparseAttnCompressStoreKernelInput,
    ) -> Seq<Ratio> {
        seq![
            whole(input.row_positions@.len() as int),
            whole(block_ends(input.row_positions@, config.compress_ratio as int) as int),
        ]
    }

    open spec fn answers(
        config: DeepseekV4SparseAttnCompressStoreKernelConfig,
        input: DeepseekV4SparseAttnCompressStoreKernelInput,
    ) -> bool {
        rows_ok(input) && config.compress_ratio > 0
    }

    fn profile_kind() -> (r: KernelKind) {
        Self::KIND
    }

    fn can_sweep(config: &DeepseekV4SparseAttnCompressStoreKernelConfig) -> (r: bool) {
        validate_config(config)
    }

    fn sweep_grid(
        config: &DeepseekV4SparseAttnCompressStoreKernelConfig,
        tokens: &Vec<u32>,
    ) -> (r: SweepGrid) {
        let none: Vec<u32> = vec![0];
        assert(none@ =~= seq![0u32]);
        let a0: Vec<u32> = Axis::pow2(0, 13);
        let a1: Vec<u32> = Axis::chain(none, &Axis::pow2(0, 13));
        let r = SweepGrid::new(vec![a0, a1]);
        proof {
            assert(r.points() =~= Self::axes(*config, tokens@));
            assert(r.scale() =~= whole_units(r.points()));
        }
        r
    }

    fn cache_kind(backend: &str) -> (r: CacheKind) {
        CacheKind::Cache2DLinear(Extrapolation::Weighted)
    }

    fn has_mask() -> (r: bool) {
        true
    }

    fn is_infeasible(
        config: &DeepseekV4SparseAttnCompressStoreKernelConfig,
        cell: &Vec<u32>,
    ) -> (r: bool) {
        cell[1] > cell[0]
    }

    fn can_answer(
        config: &DeepseekV4SparseAttnCompressStoreKernelConfig,
        input: &DeepseekV4SparseAttnCompressStoreKernelInput,
    ) -> (r: bool) {
        can_place_rows(input) && config.compress_ratio > 0
    }

    fn cache_coords(
        config: &DeepseekV4SparseAttnCompressStoreKernelConfig,
        input: &DeepseekV4SparseAttnCompressStoreKernelInput,
    ) -> (r: Vec<Ratio>) {
        let (rows, active) = input.work(config.compress_ratio);
        let r: Vec<Ratio> = vec![Ratio::from_whole(rows), Ratio::from_whole(active)];
        assert(r@ =~= Self::table_position(*config, *input));
        r
    }

    proof fn sweep_fits_table(
        config: DeepseekV4SparseAttnCompressStoreKernelConfig,
        tokens: Seq<u32>,
        backend: Seq<char>,
    ) {
        chained_keeps_some(seq![0u32], pow2_points(0, 13));
    }

    proof fn sweep_is_judged(
        config: DeepseekV4SparseAttnCompressStoreKernelConfig,
        tokens: Seq<u32>,
        index: nat,
    ) {
        cell_on_axes(Self::axes(config, tokens), index);
    }

    proof fn queries_fit_table(
        config: DeepseekV4SparseAttnCompressStoreKernelConfig,
        input: DeepseekV4SparseAttnCompressStoreKernelInput,
        backend: Seq<char>,
    ) {
    }
}

impl CellPayloads for DeepseekV4SparseAttnCompressStoreSpec {
    open spec fn covers(
        config: DeepseekV4SparseAttnCompressStoreKernelConfig,
        cell: Seq<u32>,
    ) -> bool {
        cell.len() == 2 && deal_fits(cell[0] as int, config.compress_ratio as int)
    }

    open spec fn enumerates(config: DeepseekV4SparseAttnCompressStoreKernelConfig) -> bool {
        true
    }

    open spec fn fields(
        config: DeepseekV4SparseAttnCompressStoreKernelConfig,
        cell: Seq<u32>,
        backend: Seq<char>,
    ) -> Map<Seq<char>, WireValue> {
        let active = min_int(cell[1] as int, cell[0] as int);
        let positions = dealt_positions(cell[0] as int, active, config.compress_ratio as int);
        Map::<Seq<char>, WireValue>::empty()
            .insert("row_positions"@, WireValue::Numbers(positions))
            .insert("row_request_ids"@, WireValue::Numbers(dealt_ids(cell[0] as int)))
            .insert("state_block_table_width"@, WireValue::Number(
                table_width(positions, config.compress_ratio as int) as nat,
            ))
            .insert("compress_ratio"@, WireValue::Number(config.compress_ratio as nat))
            .insert("num_kv_heads"@, WireValue::Number(config.num_kv_heads as nat))
            .insert("head_dim"@, WireValue::Number(config.head_dim@.fold() as nat))
            .insert("rope_head_dim"@, WireValue::Number(config.rope_head_dim@.fold() as nat))
            .insert("logical_block_size"@, WireValue::Number(config.logical_block_size as nat))
            .insert("rms_eps"@, WireValue::Real(Real::Bits(EPS_1E6_BITS)))
            .insert("state_dtype"@, WireValue::Text(dtype_text(config.state_dtype)))
            .insert("norm_dtype"@, WireValue::Text(dtype_text(config.norm_dtype)))
            .insert("cache_dtype"@, WireValue::Text(config.cache_dtype@))
            .insert("cache_layout"@, WireValue::Text(config.cache_layout@))
            .insert("scale_format"@, WireValue::Text(config.scale_format@))
            .insert("backend"@, WireValue::Text(backend))
    }

    fn can_enumerate(config: &DeepseekV4SparseAttnCompressStoreKernelConfig) -> (r: bool) {
        true
    }

    fn cell_payload(
        config: &DeepseekV4SparseAttnCompressStoreKernelConfig,
        cell: &Vec<u32>,
        backend: &str,
    ) -> (r: ArgsPayload) {
        let active: u32 = if cell[1] <= cell[0] {
            cell[1]
        } else {
            cell[0]
        };
        let input = canonical_input(cell[0], active, config.compress_ratio);
        ArgsPayload::new()
            .with("row_positions", PayloadValue::Numbers(input.row_positions))
            .with("row_request_ids", PayloadValue::Numbers(input.row_request_ids))
            .with("state_block_table_width", number_value(input.state_block_table_width))
            .with("compress_ratio", number_value(config.compress_ratio))
            .with("num_kv_heads", number_value(config.num_kv_heads))
            .with("head_dim", number_value(config.head_dim.get()))
            .with("rope_head_dim", number_value(config.rope_head_dim.get()))
            .with("logical_block_size", number_value(config.logical_block_size))
            .with("rms_eps", PayloadValue::Real(Real::Bits(EPS_1E6_BITS)))
            .with("state_dtype", text_value(config.state_dtype.as_str()))
            .with("norm_dtype", text_value(config.norm_dtype.as_str()))
            .with("cache_dtype", text_value(config.cache_dtype.as_str()))
            .with("cache_layout", text_value(config.cache_layout.as_str()))
            .with("scale_format", text_value(config.scale_format.as_str()))
            .with("backend", text_value(backend))
    }

    proof fn sweep_is_covered(
        config: DeepseekV4SparseAttnCompressStoreKernelConfig,
        tokens: Seq<u32>,
        index: nat,
    ) {
        cell_on_axes(Self::axes(config, tokens), index);
        let cell = cell_at(Self::axes(config, tokens), index);
        assert(Self::axes(config, tokens)[0].contains(cell[0]));
        pow2_points_within(0, 13, cell[0]);
        assert(two_to(13) == 8192) by {
            reveal_with_fuel(two_to, 14);
        }
        let rows = cell[0] as int;
        let ratio = config.compress_ratio as int;
        let rounds = (rows - 1) / request_slots(rows);
        assert(0 <= rounds <= rows - 1) by (nonlinear_arith)
            requires
                rows >= 1,
                request_slots(rows) >= 1,
                rounds == (rows - 1) / request_slots(rows),
        ;
        assert((rounds + 1) * ratio <= 8192 * 128) by (nonlinear_arith)
            requires
                0 <= rounds <= 8191,
                0 <= ratio <= 128,
        ;
    }

    proof fn fields_name_backend(
        config: DeepseekV4SparseAttnCompressStoreKernelConfig,
        cell: Seq<u32>,
        backend: Seq<char>,
    ) {
    }

    open spec fn describes(
        config: DeepseekV4SparseAttnCompressStoreKernelConfig,
        fields: Map<Seq<char>, WireValue>,
        input: DeepseekV4SparseAttnCompressStoreKernelInput,
    ) -> bool {
        &&& numbers_at(fields, "row_positions"@) == input.row_positions@
        &&& numbers_at(fields, "row_request_ids"@) == input.row_request_ids@
        &&& number_at(fields, "state_block_table_width"@) == input.state_block_table_width
    }

    open spec fn occurs(
        config: DeepseekV4SparseAttnCompressStoreKernelConfig,
        cell: Seq<u32>,
    ) -> bool {
        true
    }

    open spec fn kept_back() -> Set<Seq<char>> {
        set!["backends"@, "gpu_name"@, "kv_dtype"@]
    }

    proof fn payload_stands_at_its_cell(
        config: DeepseekV4SparseAttnCompressStoreKernelConfig,
        tokens: Seq<u32>,
        index: nat,
        backend: Seq<char>,
        input: DeepseekV4SparseAttnCompressStoreKernelInput,
    ) {
        cell_on_axes(Self::axes(config, tokens), index);
        reveal_strlit("row_positions");
        reveal_strlit("row_request_ids");
        reveal_strlit("state_block_table_width");
        reveal_strlit("compress_ratio");
        reveal_strlit("num_kv_heads");
        reveal_strlit("head_dim");
        reveal_strlit("rope_head_dim");
        reveal_strlit("logical_block_size");
        reveal_strlit("rms_eps");
        reveal_strlit("state_dtype");
        reveal_strlit("norm_dtype");
        reveal_strlit("cache_dtype");
        reveal_strlit("cache_layout");
        reveal_strlit("scale_format");
        reveal_strlit("backend");
        assert("row_positions"@.len() == 13 && "row_positions"@[2] == 'w');
        assert("row_request_ids"@.len() == 15);
        assert("state_block_table_width"@.len() == 23);
        assert("compress_ratio"@.len() == 14);
        assert("num_kv_heads"@.len() == 12);
        assert("head_dim"@.len() == 8);
        assert("rope_head_dim"@.len() == 13 && "rope_head_dim"@[2] == 'p');
        assert("logical_block_size"@.len() == 18);
        assert("rms_eps"@.len() == 7);
        assert("state_dtype"@.len() == 11);
        assert("norm_dtype"@.len() == 10);
        assert("cache_dtype"@.len() == 11);
        assert("cache_layout"@.len() == 12);
        assert("scale_format"@.len() == 12);
        assert("backend"@.len() == 7);
        let cell = cell_at(Self::axes(config, tokens), index);
        assert(Self::axes(config, tokens)[0].contains(cell[0]));
        pow2_points_within(0, 13, cell[0]);
        assert(two_to(13) == 8192 && two_to(0) == 1) by {
            reveal_with_fuel(two_to, 14);
        }
        Self::sweep_is_covered(config, tokens, index);
        let rows = cell[0] as int;
        let ratio = config.compress_ratio as int;
        let rounds = (rows - 1) / request_slots(rows);
        assert(0 <= rounds <= rows - 1) by (nonlinear_arith)
            requires
                rows >= 1,
                request_slots(rows) >= 1,
                rounds == (rows - 1) / request_slots(rows),
        ;
        assert((rounds + 1) * ratio <= 8192 * 128 && (rounds + 1) * ratio == rounds * ratio + ratio)
            by (nonlinear_arith)
            requires
                0 <= rounds <= 8191,
                0 <= ratio <= 128,
        ;
        largest_not_negative(input.row_positions@);
        canonical_input_projects_back(input, rows, cell[1] as int, ratio);
        let at = Self::table_position(config, input);
        assert(at[0] == whole(cell[0] as int));
        assert(at[1] == whole(cell[1] as int));
        stands_on_whole_units(at, cell, Self::units(Self::axes(config, tokens)));
    }

    proof fn payload_carries_config(
        config: DeepseekV4SparseAttnCompressStoreKernelConfig,
        cell: Seq<u32>,
        backend: Seq<char>,
        i: int,
    ) {
        reveal_strlit("compress_ratio");
        reveal_strlit("num_kv_heads");
        reveal_strlit("head_dim");
        reveal_strlit("rope_head_dim");
        reveal_strlit("logical_block_size");
        reveal_strlit("rms_eps");
        reveal_strlit("state_dtype");
        reveal_strlit("norm_dtype");
        reveal_strlit("cache_dtype");
        reveal_strlit("cache_layout");
        reveal_strlit("scale_format");
        reveal_strlit("backend");
        assert("compress_ratio"@.len() == 14);
        assert("num_kv_heads"@.len() == 12 && "num_kv_heads"@[0] == 'n');
        assert("head_dim"@.len() == 8);
        assert("rope_head_dim"@.len() == 13);
        assert("logical_block_size"@.len() == 18);
        assert("rms_eps"@.len() == 7);
        assert("state_dtype"@.len() == 11 && "state_dtype"@[0] == 's');
        assert("norm_dtype"@.len() == 10);
        assert("cache_dtype"@.len() == 11 && "cache_dtype"@[0] == 'c');
        assert("cache_layout"@.len() == 12 && "cache_layout"@[0] == 'c');
        assert("scale_format"@.len() == 12 && "scale_format"@[0] == 's');
        assert("backend"@.len() == 7);
        let fields = Self::fields(config, cell, backend);
        let terms = config.description();
        assert(carries(fields, terms[2]));
        assert(carries(fields, terms[3]));
        assert(carries(fields, terms[4]));
        assert(carries(fields, terms[5]));
        assert(carries(fields, terms[6]));
        assert(carries(fields, terms[7]));
        assert(carries(fields, terms[8]));
        assert(carries(fields, terms[10]));
        assert(carries(fields, terms[11]));
        assert(carries(fields, terms[12]));
    }

    proof fn described_alike_is_profiled_alike(
        a: DeepseekV4SparseAttnCompressStoreKernelConfig,
        b: DeepseekV4SparseAttnCompressStoreKernelConfig,
        tokens: Seq<u32>,
        cell: Seq<u32>,
        backend: Seq<char>,
    ) {
        let (x, y) = (a.description(), b.description());
        assert(x[0] == y[0]);
        assert(x[1] == y[1]);
        assert(x[2] == y[2]);
        assert(x[3] == y[3]);
        assert(x[4] == y[4]);
        assert(x[5] == y[5]);
        assert(x[6] == y[6]);
        assert(x[7] == y[7]);
        assert(x[8] == y[8]);
        assert(x[9] == y[9]);
        assert(x[10] == y[10]);
        assert(x[11] == y[11]);
        assert(x[12] == y[12]);
    }
}

/// No more rows end a block than there are.
proof fn block_ends_within(positions: Seq<u32>, compress_ratio: int)
    ensures
        block_ends(positions, compress_ratio) <= positions.len(),
    decreases positions.len(),
{
    if positions.len() > 0 {
        block_ends_within(positions.drop_last(), compress_ratio);
    }
}

/// A cell that is left out is the place of no launch: no more rows end a block than there
/// are.
pub proof fn every_launch_has_its_cell(
    config: DeepseekV4SparseAttnCompressStoreKernelConfig,
    cell: Seq<u32>,
    input: DeepseekV4SparseAttnCompressStoreKernelInput,
)
    requires
        cell.len() == 2,
        rows_ok(input),
        stands_at(
            DeepseekV4SparseAttnCompressStoreSpec::table_position(config, input),
            cell,
            seq![1, 1],
        ),
    ensures
        !DeepseekV4SparseAttnCompressStoreSpec::infeasible(config, cell),
{
    let at = DeepseekV4SparseAttnCompressStoreSpec::table_position(config, input);
    block_ends_within(input.row_positions@, config.compress_ratio as int);
    standing_is_value(at, cell, seq![1, 1], 0);
    standing_is_value(at, cell, seq![1, 1], 1);
}

/// The epsilon is the double nearest to a millionth.
pub proof fn epsilon_is_fixed(
    config: DeepseekV4SparseAttnCompressStoreKernelConfig,
    cell: Seq<u32>,
    backend: Seq<char>,
)
    ensures
        DeepseekV4SparseAttnCompressStoreSpec::fields(config, cell, backend)["rms_eps"@]
            == WireValue::Real(Real::Bits(0x3eb0_c6f7_a0b5_ed8d)),
{
    reveal_strlit("rms_eps");
    reveal_strlit("state_dtype");
    reveal_strlit("norm_dtype");
    reveal_strlit("cache_dtype");
    reveal_strlit("cache_layout");
    reveal_strlit("scale_format");
    reveal_strlit("backend");
    assert("rms_eps"@.len() == 7 && "rms_eps"@[0] == 'r');
    assert("state_dtype"@.len() == 11);
    assert("norm_dtype"@.len() == 10);
    assert("cache_dtype"@.len() == 11);
    assert("cache_layout"@.len() == 12);
    assert("scale_format"@.len() == 12);
    assert("backend"@.len() == 7 && "backend"@[0] == 'b');
}

/// The kernel computes in the precision that is described as `state_dtype` and keeps its
/// cache in the precision that is described as `kv_dtype`.
pub proof fn precisions_are_described(config: DeepseekV4SparseAttnCompressStoreKernelConfig)
    ensures
        config.compute() matches Some(precision) && config.description()[7] == (
            "state_dtype"@,
            ConfigTerm::Precision(precision),
        ),
        config.kv() matches Some(precision) && config.description()[9] == (
            "kv_dtype"@,
            ConfigTerm::Precision(precision),
        ),
{
}

} // verus!
