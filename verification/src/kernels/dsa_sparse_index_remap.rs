//! Remapping of request-local sparse indices to global ones.
//!
//! A launch scans a fixed row of selected indices for every query. Its variable work is
//! the number of query rows, the mean of valid slots per row, and the number of rows that
//! go to the prefill workspace; the table is built over these. Which rows belong to which
//! request, and every row's span and count, stay part of the query.

use crate::bridge::payload::{
    flag_value, number_value, text_value, ArgsPayload, DType, KernelKind, PayloadValue, WireValue,
};
use crate::cache::CacheKind;
use crate::expert_demand::total;
use crate::expert_demand::{total_not_negative, total_of_joined};
use crate::kernels::compact_counts::{compact_form, encode_vector};
use crate::kernels::compact_reading::{
    compact_form_is_lossless, last_tells_length, number_splits_off,
};
use crate::kernels::config::{
    field, fields_view, flag_of, names_of, number_of, text_of, ConfigField, ConfigTerm,
    KernelConfig,
};
use crate::kernels::engine::{
    carries, number_at, standing_is_value, stands_at, stands_on_whole_units, text_at, whole_units,
    CellPayloads, KernelSpec, SweepCoords,
};
use crate::kernels::request_split::{copies, repeat_value, row_sum, row_sum_from, total_of_copies};
use crate::sweep::{cell_at, cell_on_axes, whole, Axis, Ratio, SweepGrid};
use crate::text::{
    decimal, decimal_list, decimal_list_tells_lists_apart, push_decimal, push_decimal_list,
};
use vstd::prelude::*;

verus! {

/// The width of a row of selected indices.
pub const REQUIRED_SELECTED_K: u32 = 2048;

pub const REQUIRED_BLOCK_SIZE: u32 = 64;

pub const MAX_BLOCKS_PER_REQUEST: u32 = 16384;

pub const MAX_QUERIES: u32 = 8192;

pub const MAX_REQUESTS: usize = 256;

/// The rows that the blocks of one request cover.
pub const MAX_LOCAL_SPAN: u32 = 1048576;

/// The requests after the first `decode_requests` go to the prefill workspace, in
/// chunks of the given sizes.
#[derive(Clone, Debug, PartialEq, Eq)]
pub struct DsaSparseIndexRemapWorkspacePartition {
    pub decode_requests: u32,
    pub chunk_sizes: Vec<u32>,
}

#[derive(Clone, Debug, PartialEq, Eq, Hash)]
pub struct DsaSparseIndexRemapKernelConfig {
    pub backends: Vec<&'static str>,
    pub gpu_name: String,
    pub selected_k: u32,
    pub block_size: u32,
    pub max_blocks_per_request: u32,
    pub index_distribution: String,
    pub page_table_mapping: String,
    pub return_valid_counts: bool,
    pub index_dtype: String,
}

impl KernelConfig for DsaSparseIndexRemapKernelConfig {
    const BACKENDS_FIELD: &'static str = "DsaSparseIndexRemapKernelConfig.backends";

    open spec fn candidates(&self) -> Seq<&'static str> {
        self.backends@
    }

    open spec fn gpu(&self) -> Seq<char> {
        self.gpu_name@
    }

    open spec fn compute(&self) -> Option<DType> {
        None
    }

    open spec fn kv(&self) -> Option<DType> {
        None
    }

    open spec fn description(&self) -> Seq<(Seq<char>, ConfigTerm)> {
        seq![
            ("backends"@, ConfigTerm::Names(self.backends@)),
            ("gpu_name"@, ConfigTerm::Text(self.gpu_name@)),
            ("selected_k"@, ConfigTerm::Number(self.selected_k as nat)),
            ("block_size"@, ConfigTerm::Number(self.block_size as nat)),
            ("max_blocks_per_request"@, ConfigTerm::Number(self.max_blocks_per_request as nat)),
            ("index_distribution"@, ConfigTerm::Text(self.index_distribution@)),
            ("page_table_mapping"@, ConfigTerm::Text(self.page_table_mapping@)),
            ("return_valid_counts"@, ConfigTerm::Flag(self.return_valid_counts)),
            ("index_dtype"@, ConfigTerm::Text(self.index_dtype@)),
        ]
    }

    fn backends(&self) -> (r: &Vec<&'static str>) {
        &self.backends
    }

    fn gpu_name(&self) -> (r: &str) {
        self.gpu_name.as_str()
    }

    fn compute_dtype(&self) -> (r: Option<DType>) {
        None
    }

    fn kv_dtype(&self) -> (r: Option<DType>) {
        None
    }

    fn describe_config(&self) -> (r: Vec<ConfigField>) {
        let r: Vec<ConfigField> = vec![
            field("backends", names_of(&self.backends)),
            field("gpu_name", text_of(self.gpu_name.as_str())),
            field("selected_k", number_of(self.selected_k)),
            field("block_size", number_of(self.block_size)),
            field("max_blocks_per_request", number_of(self.max_blocks_per_request)),
            field("index_distribution", text_of(self.index_distribution.as_str())),
            field("page_table_mapping", text_of(self.page_table_mapping.as_str())),
            field("return_valid_counts", flag_of(self.return_valid_counts)),
            field("index_dtype", text_of(self.index_dtype.as_str())),
        ];
        assert(fields_view(r@) =~= self.description());
        r
    }
}

/// The rows of a launch, request by request.
#[derive(Clone, Debug, PartialEq, Eq)]
pub struct DsaSparseIndexRemapKernelInput {
    pub request_row_counts: Vec<u32>,
    pub local_span_lengths: Vec<u32>,
    pub valid_counts: Vec<u32>,
    pub workspace_partition: Option<DsaSparseIndexRemapWorkspacePartition>,
}

/// Whether a partition cuts `requests` requests into a decode part and chunks.
pub open spec fn partition_ok(
    partition: DsaSparseIndexRemapWorkspacePartition,
    requests: int,
) -> bool {
    &&& partition.decode_requests < requests
    &&& partition.chunk_sizes@.len() > 0
    &&& forall|i: int|
        0 <= i < partition.chunk_sizes@.len() ==> #[trigger] partition.chunk_sizes@[i] > 0
    &&& total(partition.chunk_sizes@) == requests - partition.decode_requests
}

/// Whether a launch can be placed on the table.
pub open spec fn remap_ok(input: DsaSparseIndexRemapKernelInput) -> bool {
    let rows = input.request_row_counts@;
    let queries = total(rows);
    &&& 0 < rows.len() <= MAX_REQUESTS
    &&& forall|i: int| 0 <= i < rows.len() ==> #[trigger] rows[i] > 0
    &&& 1 <= queries <= MAX_QUERIES
    &&& input.local_span_lengths@.len() == queries
    &&& input.valid_counts@.len() == queries
    &&& forall|i: int|
        0 <= i < queries ==> #[trigger] input.local_span_lengths@[i] <= MAX_LOCAL_SPAN
    &&& forall|i: int|
        0 <= i < queries ==> #[trigger] input.valid_counts@[i] <= REQUIRED_SELECTED_K
            && input.valid_counts@[i] <= input.local_span_lengths@[i]
    &&& match input.workspace_partition {
        Some(partition) => partition_ok(partition, rows.len() as int),
        None => true,
    }
}

fn all_positive(values: &Vec<u32>) -> (r: bool)
    ensures
        r == (forall|i: int| 0 <= i < values@.len() ==> #[trigger] values@[i] > 0),
{
    let mut i: usize = 0;
    while i < values.len()
        invariant
            i <= values@.len(),
            forall|j: int| 0 <= j < i ==> #[trigger] values@[j] > 0,
        decreases values@.len() - i,
    {
        if values[i] == 0 {
            return false;
        }
        i += 1;
    }
    true
}

/// Positive counts add up to at least as many as there are of them.
proof fn total_of_positive(counts: Seq<u32>)
    requires
        forall|i: int| 0 <= i < counts.len() ==> #[trigger] counts[i] > 0,
    ensures
        total(counts) >= counts.len(),
    decreases counts.len(),
{
    if counts.len() > 0 {
        assert forall|i: int| 0 <= i < counts.len() - 1 implies #[trigger] counts.drop_last()[i]
            > 0 by {
            assert(counts.drop_last()[i] == counts[i]);
        }
        assert(counts[counts.len() - 1] > 0);
        total_of_positive(counts.drop_last());
    }
}

fn can_partition(partition: &DsaSparseIndexRemapWorkspacePartition, requests: usize) -> (r: bool)
    requires
        requests <= MAX_REQUESTS,
    ensures
        r == partition_ok(*partition, requests as int),
{
    if partition.decode_requests as usize >= requests || !all_positive(&partition.chunk_sizes) {
        return false;
    }
    let chunks: usize = partition.chunk_sizes.len();
    proof {
        total_of_positive(partition.chunk_sizes@);
    }
    if chunks == 0 || chunks > requests {
        return false;
    }
    row_sum(&partition.chunk_sizes) == (requests - partition.decode_requests as usize) as u64
}

/// Whether a launch can be placed on the table.
pub fn can_remap(input: &DsaSparseIndexRemapKernelInput) -> (r: bool)
    ensures
        r == remap_ok(*input),
{
    let requests: usize = input.request_row_counts.len();
    if requests == 0 || requests > MAX_REQUESTS || !all_positive(&input.request_row_counts)
    {
        return false;
    }
    let queries: u64 = row_sum(&input.request_row_counts);
    if queries < 1 || queries > MAX_QUERIES as u64 {
        return false;
    }
    let rows: usize = queries as usize;
    if input.local_span_lengths.len() != rows || input.valid_counts.len() != rows {
        return false;
    }
    let mut i: usize = 0;
    while i < rows
        invariant
            i <= rows,
            rows == input.local_span_lengths@.len(),
            rows == input.valid_counts@.len(),
            forall|j: int|
                0 <= j < i ==> #[trigger] input.local_span_lengths@[j] <= MAX_LOCAL_SPAN,
            forall|j: int|
                0 <= j < i ==> #[trigger] input.valid_counts@[j] <= REQUIRED_SELECTED_K
                    && input.valid_counts@[j] <= input.local_span_lengths@[j],
        decreases rows - i,
    {
        let span: u32 = input.local_span_lengths[i];
        let valid: u32 = input.valid_counts[i];
        if span > MAX_LOCAL_SPAN || valid > REQUIRED_SELECTED_K || valid > span {
            return false;
        }
        i += 1;
    }
    match &input.workspace_partition {
        Some(partition) => can_partition(partition, requests),
        None => true,
    }
}

/// The rows that go to the prefill workspace.
pub open spec fn workspace_rows(input: DsaSparseIndexRemapKernelInput) -> int {
    match input.workspace_partition {
        Some(partition) => total(
            input.request_row_counts@.skip(partition.decode_requests as int),
        ),
        None => 0,
    }
}

impl DsaSparseIndexRemapKernelInput {
    /// The query rows, the sum of valid slots, and the rows that go to the workspace.
    pub fn work(&self) -> (r: (u32, u64, u32))
        requires
            remap_ok(*self),
        ensures
            r.0 == total(self.request_row_counts@),
            r.1 == total(self.valid_counts@),
            r.2 == workspace_rows(*self),
            r.2 <= r.0,
    {
        let queries: u32 = row_sum(&self.request_row_counts) as u32;
        let valid: u64 = row_sum(&self.valid_counts);
        let workspace: u32 = match &self.workspace_partition {
            None => 0,
            Some(partition) => {
                let first: usize = partition.decode_requests as usize;
                proof {
                    let rows = self.request_row_counts@;
                    assert(rows =~= rows.take(first as int) + rows.skip(first as int));
                    total_of_joined(rows.take(first as int), rows.skip(first as int));
                    total_not_negative(rows.take(first as int));
                }
                row_sum_from(&self.request_row_counts, first) as u32
            },
        };
        (queries, valid, workspace)
    }
}

impl SweepCoords for DsaSparseIndexRemapKernelInput {
    open spec fn well_shaped(&self) -> bool {
        remap_ok(*self)
    }

    open spec fn position(&self) -> Seq<Ratio> {
        seq![
            whole(total(self.request_row_counts@)),
            (Ratio {
                numerator: total(self.valid_counts@) as u64,
                denominator: total(self.request_row_counts@) as u64,
            }),
            whole(workspace_rows(*self)),
        ]
    }

    open spec fn axis_names() -> Seq<Seq<char>> {
        seq!["num_queries"@, "mean_valid_count"@, "workspace_query_rows"@]
    }

    fn is_well_shaped(&self) -> (r: bool) {
        can_remap(self)
    }

    fn coords(&self) -> (r: Vec<Ratio>) {
        let (queries, valid, workspace) = self.work();
        let r: Vec<Ratio> = vec![
            Ratio::from_whole(queries),
            Ratio { numerator: valid, denominator: queries as u64 },
            Ratio::from_whole(workspace),
        ];
        assert(r@ =~= self.position());
        r
    }

    fn coord_field_names() -> (r: Vec<&'static str>) {
        let r: Vec<&'static str> = vec!["num_queries", "mean_valid_count", "workspace_query_rows"];
        assert(r@.map_values(|name: &'static str| name@) =~= Self::axis_names());
        r
    }
}

/// Whether there is a launch of `queries` rows with `valid` slots each, `workspace`
/// rows of which go to the workspace.
pub open spec fn launch_occurs(queries: int, valid: int, workspace: int) -> bool {
    0 < queries <= MAX_QUERIES && valid <= REQUIRED_SELECTED_K && workspace <= queries
}

/// The rows of the requests of a canonical launch: the decode rows before the rows
/// that go to the workspace, where there are both.
pub open spec fn canonical_rows(queries: int, workspace: int) -> Seq<u32> {
    if workspace == 0 || workspace == queries {
        seq![queries as u32]
    } else {
        seq![(queries - workspace) as u32, workspace as u32]
    }
}

/// How many of those requests are decode requests, where there is a workspace.
pub open spec fn canonical_decode_requests(queries: int, workspace: int) -> u32 {
    if workspace == queries {
        0
    } else {
        1
    }
}

/// Whether `input` is the canonical launch of a cell.
pub open spec fn is_canonical(
    input: DsaSparseIndexRemapKernelInput,
    queries: int,
    valid: int,
    workspace: int,
) -> bool {
    &&& input.request_row_counts@ == canonical_rows(queries, workspace)
    &&& input.local_span_lengths@ == copies(valid, queries)
    &&& input.valid_counts@ == copies(valid, queries)
    &&& match input.workspace_partition {
        Some(partition) => workspace > 0 && partition.decode_requests == canonical_decode_requests(
            queries,
            workspace,
        ) && partition.chunk_sizes@ == seq![1u32],
        None => workspace == 0,
    }
}

/// The canonical launch of a cell, if there is one.
pub fn canonical_input(num_queries: u32, valid_count: u32, workspace_rows: u32) -> (r: Option<
    DsaSparseIndexRemapKernelInput,
>)
    ensures
        r is Some == launch_occurs(num_queries as int, valid_count as int, workspace_rows as int),
        r matches Some(input) ==> is_canonical(
            input,
            num_queries as int,
            valid_count as int,
            workspace_rows as int,
        ),
{
    if num_queries == 0 || num_queries > MAX_QUERIES || valid_count > REQUIRED_SELECTED_K
        || workspace_rows > num_queries {
        return None;
    }
    let decode_rows: u32 = num_queries - workspace_rows;
    let request_row_counts: Vec<u32> = if workspace_rows == 0 || decode_rows == 0 {
        vec![num_queries]
    } else {
        vec![decode_rows, workspace_rows]
    };
    assert(request_row_counts@ =~= canonical_rows(num_queries as int, workspace_rows as int));
    let workspace_partition = if workspace_rows == 0 {
        None
    } else {
        let chunk_sizes: Vec<u32> = vec![1];
        assert(chunk_sizes@ =~= seq![1u32]);
        let decode_requests: u32 = if workspace_rows == num_queries {
            0
        } else {
            1
        };
        Some(DsaSparseIndexRemapWorkspacePartition { decode_requests, chunk_sizes })
    };
    Some(
        DsaSparseIndexRemapKernelInput {
            request_row_counts,
            local_span_lengths: repeat_value(valid_count, num_queries),
            valid_counts: repeat_value(valid_count, num_queries),
            workspace_partition,
        },
    )
}

proof fn total_of_one(value: u32)
    ensures
        total(seq![value]) == value,
{
    assert(seq![value].drop_last() =~= Seq::<u32>::empty());
    reveal_with_fuel(total, 2);
}

/// The canonical launch of a cell can be placed on the table, and stands at that cell.
pub proof fn canonical_input_projects_back(
    input: DsaSparseIndexRemapKernelInput,
    queries: int,
    valid: int,
    workspace: int,
)
    requires
        launch_occurs(queries, valid, workspace),
        valid >= 0,
        workspace >= 0,
        is_canonical(input, queries, valid, workspace),
    ensures
        remap_ok(input),
        total(input.request_row_counts@) == queries,
        total(input.valid_counts@) == valid * queries,
        workspace_rows(input) == workspace,
{
    let rows = input.request_row_counts@;
    total_of_copies(valid, queries);
    if workspace == 0 || workspace == queries {
        total_of_one(queries as u32);
        assert(rows.skip(0) =~= rows);
    } else {
        total_of_one((queries - workspace) as u32);
        total_of_one(workspace as u32);
        assert(rows =~= seq![(queries - workspace) as u32] + seq![workspace as u32]);
        total_of_joined(seq![(queries - workspace) as u32], seq![workspace as u32]);
        assert(rows.skip(1) =~= seq![workspace as u32]);
    }
    total_of_one(1);
    assert forall|i: int| 0 <= i < rows.len() implies #[trigger] rows[i] > 0 by {}
}

/// The wire text of a workspace partition.
pub open spec fn workspace_text(
    partition: Option<DsaSparseIndexRemapWorkspacePartition>,
) -> Seq<char> {
    match partition {
        Some(partition) => "suffix:"@ + decimal(partition.decode_requests as nat) + "@"@
            + decimal_list(partition.chunk_sizes@),
        None => "none"@,
    }
}

/// The text of a workspace partition tells its decode requests and its chunks.
proof fn partition_text_tells_apart(a: nat, sizes_a: Seq<u32>, b: nat, sizes_b: Seq<u32>)
    requires
        sizes_a.len() > 0,
        sizes_b.len() > 0,
        "suffix:"@ + decimal(a) + "@"@ + decimal_list(sizes_a) == "suffix:"@ + decimal(b) + "@"@
            + decimal_list(sizes_b),
    ensures
        a == b,
        sizes_a == sizes_b,
{
    reveal_strlit("suffix:");
    reveal_strlit("@");
    let tail_a = "@"@ + decimal_list(sizes_a);
    let tail_b = "@"@ + decimal_list(sizes_b);
    let body_a = decimal(a) + tail_a;
    let body_b = decimal(b) + tail_b;
    assert("suffix:"@ + decimal(a) + "@"@ + decimal_list(sizes_a) =~= "suffix:"@ + body_a);
    assert("suffix:"@ + decimal(b) + "@"@ + decimal_list(sizes_b) =~= "suffix:"@ + body_b);
    assert(("suffix:"@ + body_a).skip(7) =~= body_a);
    assert(("suffix:"@ + body_b).skip(7) =~= body_b);
    number_splits_off(a, tail_a, b, tail_b);
    assert(tail_a.skip(1) =~= decimal_list(sizes_a));
    assert(tail_b.skip(1) =~= decimal_list(sizes_b));
    decimal_list_tells_lists_apart(sizes_a, sizes_b);
}

/// The texts of a canonical launch tell the launch: one that is written like it is it.
pub proof fn canonical_texts_are_lossless(
    input: DsaSparseIndexRemapKernelInput,
    queries: int,
    valid: int,
    workspace: int,
    cap: int,
)
    requires
        launch_occurs(queries, valid, workspace),
        valid >= 0,
        workspace >= 0,
        is_written_whole(input),
        compact_form(input.request_row_counts@, false, cap) == compact_form(
            canonical_rows(queries, workspace),
            false,
            cap,
        ),
        compact_form(input.local_span_lengths@, false, cap) == compact_form(
            copies(valid, queries),
            false,
            cap,
        ),
        compact_form(input.valid_counts@, true, cap) == compact_form(
            copies(valid, queries),
            true,
            cap,
        ),
        workspace_text(input.workspace_partition) == canonical_workspace_text(queries, workspace),
    ensures
        is_canonical(input, queries, valid, workspace),
{
    let rows = canonical_rows(queries, workspace);
    let counts = copies(valid, queries);
    compact_form_is_lossless(input.request_row_counts@, rows, false, cap);
    compact_form_is_lossless(input.local_span_lengths@, counts, false, cap);
    compact_form_is_lossless(input.valid_counts@, counts, true, cap);
    reveal_strlit("suffix:");
    reveal_strlit("none");
    assert("none"@[0] == 'n' && "suffix:"@[0] == 's');
    assert("suffix:"@.len() == 7);
    let text = workspace_text(input.workspace_partition);
    match input.workspace_partition {
        Some(partition) => {
            assert(text[0] == 's');
            if workspace > 0 {
                partition_text_tells_apart(
                    partition.decode_requests as nat,
                    partition.chunk_sizes@,
                    canonical_decode_requests(queries, workspace) as nat,
                    seq![1u32],
                );
            }
        },
        None => {
            if workspace > 0 {
                assert(canonical_workspace_text(queries, workspace)[0] == 's');
            }
        },
    }
}

/// The wire text of a launch's workspace partition.
pub fn encode_workspace(input: &DsaSparseIndexRemapKernelInput) -> (r: String)
    ensures
        r@ == workspace_text(input.workspace_partition),
{
    let mut out = String::new();
    match &input.workspace_partition {
        None => {
            out.append("none");
        },
        Some(partition) => {
            out.append("suffix:");
            push_decimal(&mut out, partition.decode_requests as u64);
            out.append("@");
            push_decimal_list(
                &mut out,
                partition.chunk_sizes.as_slice(),
                partition.chunk_sizes.len(),
            );
            assert(partition.chunk_sizes@.take(partition.chunk_sizes@.len() as int)
                =~= partition.chunk_sizes@);
        },
    }
    assert(out@ =~= workspace_text(input.workspace_partition));
    out
}

/// The cell that is enumerated for a cell: itself, or one row without valid slots if
/// there is no such launch.
pub open spec fn enumerated_cell(cell: Seq<u32>) -> (int, int, int) {
    if launch_occurs(cell[0] as int, cell[1] as int, cell[2] as int) {
        (cell[0] as int, cell[1] as int, cell[2] as int)
    } else {
        (1, 0, 0)
    }
}

/// The wire text of the workspace partition of a canonical launch.
pub open spec fn canonical_workspace_text(queries: int, workspace: int) -> Seq<char> {
    if workspace == 0 {
        "none"@
    } else {
        "suffix:"@ + decimal(canonical_decode_requests(queries, workspace) as nat) + "@"@
            + decimal_list(seq![1u32])
    }
}

/// Whether the wire texts of a launch tell all of it.
pub open spec fn is_written_whole(input: DsaSparseIndexRemapKernelInput) -> bool {
    &&& input.request_row_counts@.len() > 0 && last_tells_length(input.request_row_counts@)
    &&& input.local_span_lengths@.len() > 0 && last_tells_length(input.local_span_lengths@)
    &&& input.valid_counts@.len() > 0 && last_tells_length(input.valid_counts@)
    &&& input.workspace_partition matches Some(partition) ==> partition.chunk_sizes@.len() > 0
}

fn enumerated_input(cell: &Vec<u32>) -> (r: DsaSparseIndexRemapKernelInput)
    requires
        cell@.len() == 3,
    ensures
        ({
            let (queries, valid, workspace) = enumerated_cell(cell@);
            is_canonical(r, queries, valid, workspace)
        }),
{
    match canonical_input(cell[0], cell[1], cell[2]) {
        Some(input) => input,
        None => {
            let request_row_counts: Vec<u32> = vec![1];
            assert(request_row_counts@ =~= canonical_rows(1, 0));
            DsaSparseIndexRemapKernelInput {
                request_row_counts,
                local_span_lengths: repeat_value(0, 1),
                valid_counts: repeat_value(0, 1),
                workspace_partition: None,
            }
        },
    }
}

pub struct DsaSparseIndexRemapSpec;

impl KernelSpec for DsaSparseIndexRemapSpec {
    type Config = DsaSparseIndexRemapKernelConfig;

    type Input = DsaSparseIndexRemapKernelInput;

    const KIND: KernelKind = "dsa_sparse_index_remap";

    open spec fn admits(config: DsaSparseIndexRemapKernelConfig) -> bool {
        config.selected_k == REQUIRED_SELECTED_K && config.block_size == REQUIRED_BLOCK_SIZE && 1
            <= config.max_blocks_per_request <= MAX_BLOCKS_PER_REQUEST
    }

    open spec fn axes(config: DsaSparseIndexRemapKernelConfig, tokens: Seq<u32>) -> Seq<Seq<u32>> {
        seq![
            seq![1u32, 8, 24, 64, 128, 512, 2048, 4096, 8192],
            seq![0u32, 1, 64, 512, 2048],
            seq![0u32, 1, 8, 24, 64, 128, 512, 2048, 4096, 8192],
        ]
    }

    open spec fn units(axes: Seq<Seq<u32>>) -> Seq<u32> {
        whole_units(axes)
    }

    open spec fn table(backend: Seq<char>) -> CacheKind {
        CacheKind::Cache3DLinear
    }

    open spec fn masks() -> bool {
        true
    }

    open spec fn judges(config: DsaSparseIndexRemapKernelConfig, cell: Seq<u32>) -> bool {
        cell.len() == 3
    }

    open spec fn infeasible(config: DsaSparseIndexRemapKernelConfig, cell: Seq<u32>) -> bool {
        !launch_occurs(cell[0] as int, cell[1] as int, cell[2] as int)
    }

    open spec fn table_position(
        config: DsaSparseIndexRemapKernelConfig,
        input: DsaSparseIndexRemapKernelInput,
    ) -> Seq<Ratio> {
        input.position()
    }

    open spec fn answers(
        config: DsaSparseIndexRemapKernelConfig,
        input: DsaSparseIndexRemapKernelInput,
    ) -> bool {
        input.well_shaped()
    }

    fn profile_kind() -> (r: KernelKind) {
        Self::KIND
    }

    fn can_sweep(config: &DsaSparseIndexRemapKernelConfig) -> (r: bool) {
        config.selected_k == REQUIRED_SELECTED_K && config.block_size == REQUIRED_BLOCK_SIZE && 1
            <= config.max_blocks_per_request && config.max_blocks_per_request
            <= MAX_BLOCKS_PER_REQUEST
    }

    fn sweep_grid(config: &DsaSparseIndexRemapKernelConfig, tokens: &Vec<u32>) -> (r: SweepGrid) {
        let a0: Vec<u32> = Axis::values(vec![1, 8, 24, 64, 128, 512, 2048, 4096, 8192]);
        let a1: Vec<u32> = Axis::values(vec![0, 1, 64, 512, 2048]);
        let a2: Vec<u32> = Axis::values(vec![0, 1, 8, 24, 64, 128, 512, 2048, 4096, 8192]);
        let r = SweepGrid::new(vec![a0, a1, a2]);
        proof {
            assert(r.points() =~= Self::axes(*config, tokens@));
            assert(r.scale() =~= whole_units(r.points()));
        }
        r
    }

    fn cache_kind(backend: &str) -> (r: CacheKind) {
        CacheKind::Cache3DLinear
    }

    fn has_mask() -> (r: bool) {
        true
    }

    fn is_infeasible(config: &DsaSparseIndexRemapKernelConfig, cell: &Vec<u32>) -> (r: bool) {
        canonical_input(cell[0], cell[1], cell[2]).is_none()
    }

    fn can_answer(
        config: &DsaSparseIndexRemapKernelConfig,
        input: &DsaSparseIndexRemapKernelInput,
    ) -> (r: bool) {
        input.is_well_shaped()
    }

    fn cache_coords(
        config: &DsaSparseIndexRemapKernelConfig,
        input: &DsaSparseIndexRemapKernelInput,
    ) -> (r: Vec<Ratio>) {
        input.coords()
    }

    proof fn sweep_fits_table(
        config: DsaSparseIndexRemapKernelConfig,
        tokens: Seq<u32>,
        backend: Seq<char>,
    ) {
    }

    proof fn sweep_is_judged(
        config: DsaSparseIndexRemapKernelConfig,
        tokens: Seq<u32>,
        index: nat,
    ) {
        cell_on_axes(Self::axes(config, tokens), index);
    }

    proof fn queries_fit_table(
        config: DsaSparseIndexRemapKernelConfig,
        input: DsaSparseIndexRemapKernelInput,
        backend: Seq<char>,
    ) {
    }
}

impl CellPayloads for DsaSparseIndexRemapSpec {
    open spec fn covers(config: DsaSparseIndexRemapKernelConfig, cell: Seq<u32>) -> bool {
        cell.len() == 3
    }

    open spec fn enumerates(config: DsaSparseIndexRemapKernelConfig) -> bool {
        true
    }

    open spec fn fields(
        config: DsaSparseIndexRemapKernelConfig,
        cell: Seq<u32>,
        backend: Seq<char>,
    ) -> Map<Seq<char>, WireValue> {
        let (queries, valid, workspace) = enumerated_cell(cell);
        let rows = canonical_rows(queries, workspace);
        let counts = copies(valid, queries);
        Map::<Seq<char>, WireValue>::empty()
            .insert("num_queries"@, WireValue::Number(queries as nat))
            .insert("num_requests"@, WireValue::Number(rows.len()))
            .insert("selected_k"@, WireValue::Number(config.selected_k as nat))
            .insert("block_size"@, WireValue::Number(config.block_size as nat))
            .insert(
                "max_blocks_per_request"@,
                WireValue::Number(config.max_blocks_per_request as nat),
            )
            .insert(
                "request_row_counts"@,
                WireValue::Text(compact_form(rows, false, config.selected_k as int)),
            )
            .insert(
                "local_span_lengths"@,
                WireValue::Text(compact_form(counts, false, config.selected_k as int)),
            )
            .insert(
                "valid_counts"@,
                WireValue::Text(compact_form(counts, true, config.selected_k as int)),
            )
            .insert("index_distribution"@, WireValue::Text(config.index_distribution@))
            .insert("page_table_mapping"@, WireValue::Text(config.page_table_mapping@))
            .insert(
                "workspace_partition"@,
                WireValue::Text(canonical_workspace_text(queries, workspace)),
            )
            .insert("return_valid_counts"@, WireValue::Flag(config.return_valid_counts))
            .insert("index_dtype"@, WireValue::Text(config.index_dtype@))
            .insert("backend"@, WireValue::Text(backend))
    }

    fn can_enumerate(config: &DsaSparseIndexRemapKernelConfig) -> (r: bool) {
        true
    }

    fn cell_payload(
        config: &DsaSparseIndexRemapKernelConfig,
        cell: &Vec<u32>,
        backend: &str,
    ) -> (r: ArgsPayload) {
        let input = enumerated_input(cell);
        proof {
            let (queries, valid, workspace) = enumerated_cell(cell@);
            assert(input.valid_counts@.len() == queries);
            assert(workspace_text(input.workspace_partition) == canonical_workspace_text(
                queries,
                workspace,
            ));
        }
        ArgsPayload::new()
            .with("num_queries", number_value(input.valid_counts.len() as u32))
            .with("num_requests", number_value(input.request_row_counts.len() as u32))
            .with("selected_k", number_value(config.selected_k))
            .with("block_size", number_value(config.block_size))
            .with("max_blocks_per_request", number_value(config.max_blocks_per_request))
            .with("request_row_counts", PayloadValue::Text(
                encode_vector(input.request_row_counts.as_slice(), false, config.selected_k),
            ))
            .with("local_span_lengths", PayloadValue::Text(
                encode_vector(input.local_span_lengths.as_slice(), false, config.selected_k),
            ))
            .with("valid_counts", PayloadValue::Text(
                encode_vector(input.valid_counts.as_slice(), true, config.selected_k),
            ))
            .with("index_distribution", text_value(config.index_distribution.as_str()))
            .with("page_table_mapping", text_value(config.page_table_mapping.as_str()))
            .with("workspace_partition", PayloadValue::Text(encode_workspace(&input)))
            .with("return_valid_counts", flag_value(config.return_valid_counts))
            .with("index_dtype", text_value(config.index_dtype.as_str()))
            .with("backend", text_value(backend))
    }

    proof fn sweep_is_covered(
        config: DsaSparseIndexRemapKernelConfig,
        tokens: Seq<u32>,
        index: nat,
    ) {
        cell_on_axes(Self::axes(config, tokens), index);
    }

    proof fn fields_name_backend(
        config: DsaSparseIndexRemapKernelConfig,
        cell: Seq<u32>,
        backend: Seq<char>,
    ) {
    }

    open spec fn describes(
        config: DsaSparseIndexRemapKernelConfig,
        fields: Map<Seq<char>, WireValue>,
        input: DsaSparseIndexRemapKernelInput,
    ) -> bool {
        &&& is_written_whole(input)
        &&& text_at(fields, "request_row_counts"@) == compact_form(
            input.request_row_counts@,
            false,
            config.selected_k as int,
        )
        &&& text_at(fields, "local_span_lengths"@) == compact_form(
            input.local_span_lengths@,
            false,
            config.selected_k as int,
        )
        &&& text_at(fields, "valid_counts"@) == compact_form(
            input.valid_counts@,
            true,
            config.selected_k as int,
        )
        &&& text_at(fields, "workspace_partition"@) == workspace_text(input.workspace_partition)
    }

    open spec fn occurs(config: DsaSparseIndexRemapKernelConfig, cell: Seq<u32>) -> bool {
        true
    }

    open spec fn kept_back() -> Set<Seq<char>> {
        set!["backends"@, "gpu_name"@]
    }

    proof fn payload_stands_at_its_cell(
        config: DsaSparseIndexRemapKernelConfig,
        tokens: Seq<u32>,
        index: nat,
        backend: Seq<char>,
        input: DsaSparseIndexRemapKernelInput,
    ) {
        cell_on_axes(Self::axes(config, tokens), index);
        reveal_strlit("request_row_counts");
        reveal_strlit("local_span_lengths");
        reveal_strlit("valid_counts");
        reveal_strlit("index_distribution");
        reveal_strlit("page_table_mapping");
        reveal_strlit("workspace_partition");
        reveal_strlit("return_valid_counts");
        reveal_strlit("index_dtype");
        reveal_strlit("backend");
        assert("request_row_counts"@.len() == 18 && "request_row_counts"@[0] == 'r');
        assert("local_span_lengths"@.len() == 18 && "local_span_lengths"@[0] == 'l');
        assert("valid_counts"@.len() == 12);
        assert("index_distribution"@.len() == 18 && "index_distribution"@[0] == 'i');
        assert("page_table_mapping"@.len() == 18 && "page_table_mapping"@[0] == 'p');
        assert("workspace_partition"@.len() == 19 && "workspace_partition"@[0] == 'w');
        assert("return_valid_counts"@.len() == 19 && "return_valid_counts"@[0] == 'r');
        assert("index_dtype"@.len() == 11);
        assert("backend"@.len() == 7);
        let cell = cell_at(Self::axes(config, tokens), index);
        let queries = cell[0] as int;
        let valid = cell[1] as int;
        let workspace = cell[2] as int;
        canonical_texts_are_lossless(input, queries, valid, workspace, config.selected_k as int);
        canonical_input_projects_back(input, queries, valid, workspace);
        assert(0 <= valid * queries <= u64::MAX) by (nonlinear_arith)
            requires
                0 <= valid <= u32::MAX,
                0 < queries <= 8192,
        ;
        let at = Self::table_position(config, input);
        assert(at[0] == whole(cell[0] as int));
        assert(at[1].numerator == cell[1] * at[1].denominator);
        assert(at[2] == whole(cell[2] as int));
        stands_on_whole_units(at, cell, Self::units(Self::axes(config, tokens)));
    }

    proof fn payload_carries_config(
        config: DsaSparseIndexRemapKernelConfig,
        cell: Seq<u32>,
        backend: Seq<char>,
        i: int,
    ) {
        reveal_strlit("selected_k");
        reveal_strlit("block_size");
        reveal_strlit("max_blocks_per_request");
        reveal_strlit("request_row_counts");
        reveal_strlit("local_span_lengths");
        reveal_strlit("valid_counts");
        reveal_strlit("index_distribution");
        reveal_strlit("page_table_mapping");
        reveal_strlit("workspace_partition");
        reveal_strlit("return_valid_counts");
        reveal_strlit("index_dtype");
        reveal_strlit("backend");
        assert("selected_k"@.len() == 10 && "selected_k"@[0] == 's');
        assert("block_size"@.len() == 10 && "block_size"@[0] == 'b');
        assert("max_blocks_per_request"@.len() == 22);
        assert("request_row_counts"@.len() == 18 && "request_row_counts"@[0] == 'r');
        assert("local_span_lengths"@.len() == 18 && "local_span_lengths"@[0] == 'l');
        assert("valid_counts"@.len() == 12);
        assert("index_distribution"@.len() == 18 && "index_distribution"@[0] == 'i');
        assert("page_table_mapping"@.len() == 18 && "page_table_mapping"@[0] == 'p');
        assert("workspace_partition"@.len() == 19 && "workspace_partition"@[0] == 'w');
        assert("return_valid_counts"@.len() == 19 && "return_valid_counts"@[0] == 'r');
        assert("index_dtype"@.len() == 11);
        assert("backend"@.len() == 7);
        let fields = Self::fields(config, cell, backend);
        let terms = config.description();
        assert(carries(fields, terms[2]));
        assert(carries(fields, terms[3]));
        assert(carries(fields, terms[4]));
        assert(carries(fields, terms[5]));
        assert(carries(fields, terms[6]));
        assert(carries(fields, terms[7]));
        assert(carries(fields, terms[8]));
    }

    proof fn described_alike_is_profiled_alike(
        a: DsaSparseIndexRemapKernelConfig,
        b: DsaSparseIndexRemapKernelConfig,
        tokens: Seq<u32>,
        cell: Seq<u32>,
        backend: Seq<char>,
    ) {
        let (x, y) = (a.description(), b.description());
        assert(x[0] == y[0]);
        assert(x[1] == y[1]);
        assert(x[2] == y[2]);
        assert(x[3] == y[3]);
        assert(x[4] == y[4]);
        assert(x[5] == y[5]);
        assert(x[6] == y[6]);
        assert(x[7] == y[7]);
        assert(x[8] == y[8]);
    }
}

/// The texts tell how many query rows and requests there are besides: the rows that the
/// requests have together, and the requests.
pub proof fn payload_counts_its_rows(
    config: DsaSparseIndexRemapKernelConfig,
    cell: Seq<u32>,
    backend: Seq<char>,
    input: DsaSparseIndexRemapKernelInput,
)
    requires
        cell.len() == 3,
        !DsaSparseIndexRemapSpec::infeasible(config, cell),
        DsaSparseIndexRemapSpec::describes(
            config,
            DsaSparseIndexRemapSpec::fields(config, cell, backend),
            input,
        ),
    ensures
        number_at(DsaSparseIndexRemapSpec::fields(config, cell, backend), "num_queries"@) == total(
            input.request_row_counts@,
        ),
        number_at(DsaSparseIndexRemapSpec::fields(config, cell, backend), "num_requests"@)
            == input.request_row_counts@.len(),
{
    reveal_strlit("num_queries");
    reveal_strlit("num_requests");
    reveal_strlit("selected_k");
    reveal_strlit("block_size");
    reveal_strlit("max_blocks_per_request");
    reveal_strlit("request_row_counts");
    reveal_strlit("local_span_lengths");
    reveal_strlit("valid_counts");
    reveal_strlit("index_distribution");
    reveal_strlit("page_table_mapping");
    reveal_strlit("workspace_partition");
    reveal_strlit("return_valid_counts");
    reveal_strlit("index_dtype");
    reveal_strlit("backend");
    assert("num_queries"@.len() == 11 && "num_queries"@[0] == 'n');
    assert("num_requests"@.len() == 12 && "num_requests"@[0] == 'n');
    assert("selected_k"@.len() == 10);
    assert("block_size"@.len() == 10);
    assert("max_blocks_per_request"@.len() == 22);
    assert("request_row_counts"@.len() == 18 && "request_row_counts"@[0] == 'r');
    assert("local_span_lengths"@.len() == 18 && "local_span_lengths"@[0] == 'l');
    assert("valid_counts"@.len() == 12 && "valid_counts"@[0] == 'v');
    assert("index_distribution"@.len() == 18 && "index_distribution"@[0] == 'i');
    assert("page_table_mapping"@.len() == 18 && "page_table_mapping"@[0] == 'p');
    assert("workspace_partition"@.len() == 19 && "workspace_partition"@[0] == 'w');
    assert("return_valid_counts"@.len() == 19 && "return_valid_counts"@[0] == 'r');
    assert("index_dtype"@.len() == 11 && "index_dtype"@[0] == 'i');
    assert("backend"@.len() == 7);
    let queries = cell[0] as int;
    let valid = cell[1] as int;
    let workspace = cell[2] as int;
    canonical_texts_are_lossless(input, queries, valid, workspace, config.selected_k as int);
    canonical_input_projects_back(input, queries, valid, workspace);
}

/// No part of the rows is more than all of them.
proof fn suffix_within(rows: Seq<u32>, from: int)
    requires
        0 <= from <= rows.len(),
    ensures
        0 <= total(rows.skip(from)) <= total(rows),
{
    assert(rows =~= rows.take(from) + rows.skip(from));
    total_of_joined(rows.take(from), rows.skip(from));
    total_not_negative(rows.take(from));
    total_not_negative(rows.skip(from));
}

/// Counts within a limit add up to no more than that limit for each.
proof fn total_within(counts: Seq<u32>, most: int)
    requires
        forall|i: int| 0 <= i < counts.len() ==> #[trigger] counts[i] <= most,
    ensures
        0 <= total(counts) <= most * counts.len(),
    decreases counts.len(),
{
    if counts.len() > 0 {
        let front = counts.drop_last();
        assert forall|i: int| 0 <= i < front.len() implies #[trigger] front[i] <= most by {
            assert(counts[i] <= most);
        }
        total_within(front, most);
        assert(counts[counts.len() - 1] <= most);
        assert(most * (counts.len() - 1) + most == most * counts.len()) by (nonlinear_arith);
    } else {
        assert(most * 0 == 0);
    }
}

/// A cell that is left out is the place of no launch: no more rows go to the workspace than
/// there are, and no row has more valid slots than are selected.
pub proof fn every_launch_has_its_cell(
    config: DsaSparseIndexRemapKernelConfig,
    cell: Seq<u32>,
    input: DsaSparseIndexRemapKernelInput,
)
    requires
        cell.len() == 3,
        input.well_shaped(),
        stands_at(input.position(), cell, seq![1, 1, 1]),
    ensures
        !DsaSparseIndexRemapSpec::infeasible(config, cell),
{
    let rows = input.request_row_counts@;
    let counts = input.valid_counts@;
    let at = input.position();
    standing_is_value(at, cell, seq![1, 1, 1], 0);
    standing_is_value(at, cell, seq![1, 1, 1], 1);
    standing_is_value(at, cell, seq![1, 1, 1], 2);
    if let Some(partition) = input.workspace_partition {
        suffix_within(rows, partition.decode_requests as int);
    }
    assert forall|i: int| 0 <= i < counts.len() implies #[trigger] counts[i]
        <= REQUIRED_SELECTED_K by {}
    total_within(counts, REQUIRED_SELECTED_K as int);
    let valid = cell[1] as int;
    let queries = at[1].denominator as int;
    assert(valid <= 2048) by (nonlinear_arith)
        requires
            valid * queries <= 2048 * queries,
            queries > 0,
    ;
}

/// The kernel names no precision that it computes in and names no precision that it keeps
/// its cache in.
pub proof fn precisions_are_described(config: DsaSparseIndexRemapKernelConfig)
    ensures
        config.compute() is None,
        config.kv() is None,
{
}

} // verus!
