//! Sparse latent attention over a selected set of cache rows.
//!
//! Each query row reads at most `selected_k` rows of the cache. How many it reads
//! depends on the phase: in plain decode every row sees the whole cache, in
//! prefill the rows walk a causal ramp, and a verify step submits groups of rows
//! that each see one row fewer than the next. The sweep axes and the count vector
//! that goes over the wire both follow that pattern.

use crate::bridge::payload::{
    dtype_text, number_value, text_value, ArgsPayload, DType, KernelKind, PayloadValue, Real,
    WireValue,
};
use crate::cache::{CacheKind, Extrapolation};
use crate::dims::Dim;
use crate::kernels::compact_counts::{
    check_capped_ramp, clipped_text, compact_form, group_text, is_capped_ramp, is_clipped_ramp,
    is_uniform, min_int, never_decreases, push_clipped, push_group, push_ramp, push_uniform,
    ramp_text, repeated, repeated_group_period, shortest_period_is, unclipped_last, uniform_text,
};
use crate::kernels::config::{
    dimension_of, field, fields_view, names_of, number_of, precision_of, text_of, ConfigField,
    ConfigTerm, ConfigValue, KernelConfig,
};
use crate::kernels::engine::{
    carries, number_at, text_at, whole_units, CellPayloads, KernelSpec, SweepCoords,
};
use crate::sweep::{
    ascending, ascending_keeps_some, ascending_of, cell_at, cell_on_axes, whole, Ratio, SweepGrid,
};
use crate::text::text_eq;
use vstd::prelude::*;

verus! {

pub open spec fn uniform_query_points() -> Seq<u32> {
    seq![
        1u32, 2, 4, 8, 16, 32, 64, 127, 128, 129, 131, 132, 133, 255, 256, 257, 263, 264, 265, 512,
        1024, 2048, 4096, 8192, 16384, 32768, 65536,
    ]
}

pub fn uniform_query_axis() -> (r: Vec<u32>)
    ensures
        r@ == uniform_query_points(),
{
    vec![
        1, 2, 4, 8, 16, 32, 64, 127, 128, 129, 131, 132, 133, 255, 256, 257, 263, 264, 265, 512,
        1024, 2048, 4096, 8192, 16384, 32768, 65536,
    ]
}

pub open spec fn uniform_cache_points() -> Seq<u32> {
    seq![
        1u32, 2, 4, 6, 8, 11, 16, 32, 63, 64, 65, 91, 127, 128, 129, 256, 512, 1024, 2047, 2048,
        2049, 4096, 8192, 16384, 32768, 65536, 131072, 262144, 524288, 1048576,
    ]
}

pub fn uniform_cache_axis() -> (r: Vec<u32>)
    ensures
        r@ == uniform_cache_points(),
{
    vec![
        1, 2, 4, 6, 8, 11, 16, 32, 63, 64, 65, 91, 127, 128, 129, 256, 512, 1024, 2047, 2048, 2049,
        4096, 8192, 16384, 32768, 65536, 131072, 262144, 524288, 1048576,
    ]
}

pub open spec fn causal_query_points() -> Seq<u32> {
    seq![
        1u32, 2, 3, 4, 6, 8, 11, 16, 23, 32, 45, 64, 90, 127, 128, 129, 130, 131, 132, 133, 200,
        254, 255, 256, 257, 258, 263, 264, 265, 512, 1024, 2048, 4096, 8192, 16384, 32768, 65536,
    ]
}

pub fn causal_query_axis() -> (r: Vec<u32>)
    ensures
        r@ == causal_query_points(),
{
    vec![
        1, 2, 3, 4, 6, 8, 11, 16, 23, 32, 45, 64, 90, 127, 128, 129, 130, 131, 132, 133, 200, 254,
        255, 256, 257, 258, 263, 264, 265, 512, 1024, 2048, 4096, 8192, 16384, 32768, 65536,
    ]
}

pub open spec fn causal_cache_points() -> Seq<u32> {
    seq![
        1u32, 2, 3, 4, 6, 8, 11, 16, 23, 32, 45, 63, 64, 65, 90, 127, 128, 129, 130, 182, 200, 255,
        256, 260, 511, 512, 513, 724, 1024, 2047, 2048, 2049, 4096, 8192, 16384, 32768, 65536,
        131072, 262144, 524288, 1048576,
    ]
}

pub fn causal_cache_axis() -> (r: Vec<u32>)
    ensures
        r@ == causal_cache_points(),
{
    vec![
        1, 2, 3, 4, 6, 8, 11, 16, 23, 32, 45, 63, 64, 65, 90, 127, 128, 129, 130, 182, 200, 255,
        256, 260, 511, 512, 513, 724, 1024, 2047, 2048, 2049, 4096, 8192, 16384, 32768, 65536,
        131072, 262144, 524288, 1048576,
    ]
}

/// Query anchors of a verify group of two rows.
pub open spec fn pair_query_points() -> Seq<u32> {
    seq![
        2u32, 4, 8, 16, 32, 64, 128, 132, 134, 256, 264, 266, 512, 1024, 2048, 4096, 8192, 16384,
        32768, 65536,
    ]
}

pub fn pair_query_axis() -> (r: Vec<u32>)
    ensures
        r@ == pair_query_points(),
{
    vec![
        2, 4, 8, 16, 32, 64, 128, 132, 134, 256, 264, 266, 512, 1024, 2048, 4096, 8192, 16384,
        32768, 65536,
    ]
}

/// Context anchors of a verify group of two rows.
pub open spec fn pair_cache_points() -> Seq<u32> {
    seq![
        1u32, 2, 3, 4, 8, 16, 23, 32, 45, 63, 64, 65, 127, 128, 129, 182, 256, 512, 1024, 2047,
        2048, 2049, 4096, 8192, 16384, 32768, 65536, 131072, 262144, 524288, 1048576,
    ]
}

pub fn pair_cache_axis() -> (r: Vec<u32>)
    ensures
        r@ == pair_cache_points(),
{
    vec![
        1, 2, 3, 4, 8, 16, 23, 32, 45, 63, 64, 65, 127, 128, 129, 182, 256, 512, 1024, 2047, 2048,
        2049, 4096, 8192, 16384, 32768, 65536, 131072, 262144, 524288, 1048576,
    ]
}

pub open spec fn pooled_query_points() -> Seq<u32> {
    seq![
        1u32, 2, 4, 8, 16, 32, 64, 96, 127, 128, 129, 255, 256, 257, 512, 1024, 2048, 4096, 8192,
        16384, 32768,
    ]
}

pub fn pooled_query_axis() -> (r: Vec<u32>)
    ensures
        r@ == pooled_query_points(),
{
    vec![
        1, 2, 4, 8, 16, 32, 64, 96, 127, 128, 129, 255, 256, 257, 512, 1024, 2048, 4096, 8192,
        16384, 32768,
    ]
}

pub open spec fn pooled_base_points() -> Seq<u32> {
    seq![
        1u32, 2, 4, 8, 16, 32, 64, 128, 256, 512, 768, 1024, 1536, 4096, 8192, 16384, 32768, 65536,
        131072, 262144, 1048576,
    ]
}

/// Which shape of valid-row counts a configuration sweeps.
#[derive(Clone, Copy, Debug, PartialEq, Eq, Hash, Structural)]
pub enum ValidCountsPattern {
    /// Every query row sees the whole cache.
    UniformFull,
    /// The rows of one prefill request walk a causal ramp over its own context.
    CausalTail,
    /// A verify step: groups of `group_size` rows, each row of a group seeing one
    /// context row fewer than the next.
    SpeculativeGroups { group_size: u32 },
    /// Every row sees its whole context, but the indexer keeps at most
    /// `index_topk` pools of `index_kpool` rows plus a partial tail pool.
    PooledUniformFull { index_topk: u32, index_kpool: u32 },
}

/// Whether a pattern is meaningful for a page table of `selected_k` rows.
pub open spec fn pattern_ok(pattern: ValidCountsPattern, selected_k: u32) -> bool {
    match pattern {
        ValidCountsPattern::UniformFull => true,
        ValidCountsPattern::CausalTail => true,
        ValidCountsPattern::SpeculativeGroups { group_size } => group_size > 0,
        ValidCountsPattern::PooledUniformFull { index_topk, index_kpool } => index_topk > 0
            && index_kpool > 0 && index_topk + index_kpool - 1 <= selected_k,
    }
}

/// The largest count that a row can reach.
pub open spec fn count_cap(pattern: ValidCountsPattern, selected_k: u32) -> int {
    match pattern {
        ValidCountsPattern::PooledUniformFull { index_topk, index_kpool } => index_topk
            + index_kpool - 1,
        _ => selected_k as int,
    }
}

impl ValidCountsPattern {
    /// The pattern of a decode step that submits `verify_width` rows per request:
    /// one row is plain decode, more are a verify group, and zero is no width.
    pub fn for_decode(verify_width: u32) -> (r: Option<Self>)
        ensures
            r == (if verify_width == 0 {
                None::<ValidCountsPattern>
            } else if verify_width == 1 {
                Some(ValidCountsPattern::UniformFull)
            } else {
                Some(ValidCountsPattern::SpeculativeGroups { group_size: verify_width })
            }),
    {
        if verify_width == 0 {
            None
        } else if verify_width == 1 {
            Some(ValidCountsPattern::UniformFull)
        } else {
            Some(ValidCountsPattern::SpeculativeGroups { group_size: verify_width })
        }
    }

    /// The largest count that a row can reach under this pattern.
    pub fn valid_count_cap(self, selected_k: u32) -> (r: u32)
        requires
            pattern_ok(self, selected_k),
        ensures
            r == count_cap(self, selected_k),
    {
        match self {
            ValidCountsPattern::PooledUniformFull { index_topk, index_kpool } => index_topk + (
            index_kpool - 1),
            _ => selected_k,
        }
    }
}

/// The counts of one verify group: row `i` sees `s - (group_size - 1 - i)` context
/// rows, at least none and at most `k`.
pub open spec fn verify_group(s: int, k: int, group_size: int) -> Seq<u32> {
    Seq::new(group_size as nat, |row: int| group_row(s, k, group_size, row) as u32)
}

pub open spec fn group_row(s: int, k: int, group_size: int, row: int) -> int {
    let seen = s - (group_size - 1 - row);
    min_int(
        if seen < 0 {
            0
        } else {
            seen
        },
        k,
    )
}

/// Whether `q` rows over `s` context rows are a shape of the pattern.
pub open spec fn shape_occurs(pattern: ValidCountsPattern, q: int, s: int) -> bool {
    match pattern {
        ValidCountsPattern::CausalTail => q <= s,
        ValidCountsPattern::SpeculativeGroups { group_size } => q % (group_size as int) == 0,
        _ => true,
    }
}

/// The valid-row count of every query row, for a shape of the pattern.
pub open spec fn valid_counts(pattern: ValidCountsPattern, q: int, s: int, k: int) -> Seq<u32> {
    match pattern {
        ValidCountsPattern::CausalTail => Seq::new(
            q as nat,
            |i: int| min_int(s - q + 1 + i, k) as u32,
        ),
        ValidCountsPattern::SpeculativeGroups { group_size } => Seq::new(
            q as nat,
            |i: int| group_row(s, k, group_size as int, i % (group_size as int)) as u32,
        ),
        _ => Seq::new(q as nat, |i: int| min_int(s, k) as u32),
    }
}

/// The wire text of the counts of `q / group_size` verify groups.
pub open spec fn speculative_text(q: int, s: int, k: int, group_size: int) -> Seq<char> {
    let group = verify_group(s, k, group_size);
    if group[0] == group.last() {
        uniform_text(group[0] as int, q)
    } else if q == group_size && is_capped_ramp(group, u32::MAX as int) {
        ramp_text(group[0] as int, group.last() as int)
    } else if q == group_size && is_clipped_ramp(group, k) {
        clipped_text(group[0] as int, unclipped_last(group), k)
    } else {
        group_text(group, q / group_size)
    }
}

/// The wire text of the counts; a shape that the pattern does not have gets a
/// placeholder of zero counts.
pub open spec fn counts_text(pattern: ValidCountsPattern, q: int, s: int, k: int) -> Seq<char> {
    if !shape_occurs(pattern, q, s) {
        uniform_text(0, q)
    } else {
        match pattern {
            ValidCountsPattern::CausalTail => {
                let first = s - q + 1;
                if q == 1 || first >= k {
                    uniform_text(min_int(first, k), q)
                } else if s <= k {
                    ramp_text(first, s)
                } else {
                    clipped_text(first, s, k)
                }
            },
            ValidCountsPattern::SpeculativeGroups { group_size } => speculative_text(
                q,
                s,
                k,
                group_size as int,
            ),
            _ => uniform_text(min_int(s, k), q),
        }
    }
}

/// The counts of a verify group never decrease.
proof fn verify_group_rises(s: int, k: int, group_size: int)
    requires
        0 <= s <= u32::MAX,
        0 <= k <= u32::MAX,
        0 < group_size,
    ensures
        never_decreases(verify_group(s, k, group_size)),
{
}

/// For every shape of a pattern the wire text is the compact form of the complete
/// count vector.
pub proof fn counts_text_is_compact(pattern: ValidCountsPattern, q: int, s: int, k: int)
    requires
        1 <= q <= u32::MAX,
        0 <= s <= u32::MAX,
        0 <= k <= u32::MAX,
        pattern matches ValidCountsPattern::SpeculativeGroups { group_size } ==> group_size > 0,
        shape_occurs(pattern, q, s),
    ensures
        counts_text(pattern, q, s, k) == compact_form(valid_counts(pattern, q, s, k), true, k),
{
    let v = valid_counts(pattern, q, s, k);
    match pattern {
        ValidCountsPattern::CausalTail => {
            let first = s - q + 1;
            if q == 1 || first >= k {
                assert(is_uniform(v));
            } else {
                assert(v[0] == first);
                assert(v[1] == first + 1);
                assert(!is_uniform(v));
                assert(v.last() == min_int(s, k));
                if s <= k {
                    assert(is_capped_ramp(v, u32::MAX as int));
                } else {
                    assert(v[q - 1] != min_int(v[0] + (q - 1), u32::MAX as int));
                    assert(is_clipped_ramp(v, k));
                }
            }
        },
        ValidCountsPattern::SpeculativeGroups { group_size } => {
            speculative_text_is_compact(q, s, k, group_size as int);
            assert(v =~= valid_counts(pattern, q, s, k));
        },
        _ => {
            assert(is_uniform(v));
        },
    }
}

/// The text made from a speculative pattern's three numbers is the compact form of the
/// whole vector that they stand for, though the vector is never built.
#[verifier::rlimit(30)]
pub proof fn speculative_text_is_compact(q: int, s: int, k: int, g: int)
    requires
        1 <= q <= u32::MAX,
        0 <= s <= u32::MAX,
        0 <= k <= u32::MAX,
        0 < g <= u32::MAX,
        q % g == 0,
    ensures
        speculative_text(q, s, k, g) == compact_form(
            valid_counts(
                ValidCountsPattern::SpeculativeGroups { group_size: g as u32 },
                q,
                s,
                k,
            ),
            true,
            k,
        ),
{
    let group = verify_group(s, k, g);
    let repeats = q / g;
    let v = valid_counts(ValidCountsPattern::SpeculativeGroups { group_size: g as u32 }, q, s, k);
    verify_group_rises(s, k, g);
    assert(q == g * repeats && repeats >= 1) by (nonlinear_arith)
        requires
            q % g == 0,
            repeats == q / g,
            q >= 1,
            g > 0,
    ;
    assert(v =~= repeated(group, repeats)) by {
        assert forall|i: int| 0 <= i < v.len() implies v[i] == repeated(group, repeats)[i] by {
            assert(0 <= i % g < g);
        }
    }
    assert forall|i: int| 0 <= i < g && i < q implies #[trigger] v[i] == group[i] by {
        vstd::arithmetic::div_mod::lemma_small_mod(i as nat, g as nat);
    }
    assert(g <= q) by (nonlinear_arith)
        requires
            q == g * repeats,
            repeats >= 1,
            g > 0,
    ;
    if group[0] == group.last() {
        assert forall|i: int| 0 <= i < v.len() implies #[trigger] v[i] == v[0] by {
            assert(0 <= i % g < g);
            assert(group[0] <= group[i % g] <= group[g - 1]);
        }
        assert(is_uniform(v));
    } else {
        assert(v[g - 1] != v[0]);
        assert(!is_uniform(v));
        if q == g {
            assert(v =~= group);
        } else {
            assert(q >= 2 * g) by (nonlinear_arith)
                requires
                    q == g * repeats,
                    repeats >= 1,
                    q != g,
                    g > 0,
            ;
            assert(g % g == 0) by (nonlinear_arith)
                requires
                    g > 0,
            ;
            assert(v[g] == group[0]);
            assert(group[0] < group[g - 1]);
            assert(v[g] != min_int(v[0] + g, u32::MAX as int));
            assert(!is_capped_ramp(v, u32::MAX as int));
            if v[0] < k {
                assert(v[g] != min_int(v[0] + g, k));
            }
            assert(!is_clipped_ramp(v, k));
        }
        repeated_group_period(group, repeats);
        shortest_period_is(v, g);
    }
}

/// The wire text of the counts of `q / group_size` verify groups: the compact form of the
/// whole vector, without building it.
pub fn canonical_speculative_counts(q: u32, s: u32, k: u32, group_size: u32) -> (r: String)
    requires
        group_size > 0,
    ensures
        r@ == speculative_text(q as int, s as int, k as int, group_size as int),
        q > 0 && q % group_size == 0 ==> r@ == compact_form(
            valid_counts(
                ValidCountsPattern::SpeculativeGroups { group_size },
                q as int,
                s as int,
                k as int,
            ),
            true,
            k as int,
        ),
{
    proof {
        if q > 0 && q % group_size == 0 {
            speculative_text_is_compact(q as int, s as int, k as int, group_size as int);
        }
    }
    let mut group: Vec<u32> = Vec::new();
    let mut row: u32 = 0;
    while row < group_size
        invariant
            row <= group_size,
            group@.len() == row,
            forall|i: int|
                0 <= i < row ==> group@[i] == group_row(
                    s as int,
                    k as int,
                    group_size as int,
                    i,
                ) as u32,
        decreases group_size - row,
    {
        let seen: u32 = s.saturating_sub(group_size - 1 - row);
        group.push(
            if seen <= k {
                seen
            } else {
                k
            },
        );
        row += 1;
    }
    assert(group@ =~= verify_group(s as int, k as int, group_size as int));
    let mut out = String::new();
    let first: u32 = group[0];
    let last: u32 = group[group.len() - 1];
    if first == last {
        push_uniform(&mut out, first as u64, q as u64);
    } else if q == group_size && check_capped_ramp(group.as_slice(), u32::MAX) {
        push_ramp(&mut out, first as u64, last as u64);
    } else {
        let end: u64 = first as u64 + group_size as u64 - 1;
        if q == group_size && first < k && (k as u64) < end && check_capped_ramp(
            group.as_slice(),
            k,
        ) {
            push_clipped(&mut out, first as u64, end, k as u64);
        } else {
            push_group(&mut out, group.as_slice(), group.len(), (q / group_size) as u64);
            assert(group@.take(group@.len() as int) =~= group@);
        }
    }
    assert(out@ =~= speculative_text(q as int, s as int, k as int, group_size as int));
    out
}

/// The wire text of the counts of `q` query rows over `s` context rows, each count
/// at most `k`.
pub fn canonical_valid_counts(pattern: ValidCountsPattern, q: u32, s: u32, k: u32) -> (r: String)
    requires
        pattern matches ValidCountsPattern::SpeculativeGroups { group_size } ==> group_size > 0,
        pattern == ValidCountsPattern::CausalTail ==> !(q == 0 && s == u32::MAX),
    ensures
        r@ == counts_text(pattern, q as int, s as int, k as int),
{
    let mut out = String::new();
    match pattern {
        ValidCountsPattern::CausalTail => {
            if q > s {
                return masked_placeholder(q);
            }
            let first: u32 = s - q + 1;
            if q == 1 || first >= k {
                push_uniform(
                    &mut out,
                    if first <= k {
                        first as u64
                    } else {
                        k as u64
                    },
                    q as u64,
                );
            } else if s <= k {
                push_ramp(&mut out, first as u64, s as u64);
            } else {
                push_clipped(&mut out, first as u64, s as u64, k as u64);
            }
        },
        ValidCountsPattern::SpeculativeGroups { group_size } => {
            if q % group_size != 0 {
                return masked_placeholder(q);
            }
            return canonical_speculative_counts(q, s, k, group_size);
        },
        _ => {
            push_uniform(
                &mut out,
                if s <= k {
                    s as u64
                } else {
                    k as u64
                },
                q as u64,
            );
        },
    }
    assert(out@ =~= counts_text(pattern, q as int, s as int, k as int));
    out
}

fn masked_placeholder(q: u32) -> (r: String)
    ensures
        r@ == uniform_text(0, q as int),
{
    let mut out = String::new();
    push_uniform(&mut out, 0, q as u64);
    assert(out@ =~= uniform_text(0, q as int));
    out
}

/// The query axis of verify groups: the anchors of groups of two, scaled so that
/// the number of requests at each anchor stays the same.
pub open spec fn speculative_query_points(group_size: int) -> Seq<u32> {
    if group_size == 2 {
        pair_query_points()
    } else {
        Seq::new(
            pair_query_points().len(),
            |i: int| (pair_query_points()[i] / 2 * group_size) as u32,
        )
    }
}

pub fn speculative_query_axis(group_size: u32) -> (r: Vec<u32>)
    requires
        0 < group_size,
        32768 * group_size <= u32::MAX,
    ensures
        r@ == speculative_query_points(group_size as int),
{
    let anchors: Vec<u32> = pair_query_axis();
    if group_size == 2 {
        return anchors;
    }
    let mut out: Vec<u32> = Vec::new();
    let mut i: usize = 0;
    while i < anchors.len()
        invariant
            i <= anchors@.len(),
            anchors@ == pair_query_points(),
            32768 * group_size <= u32::MAX,
            out@.len() == i,
            forall|j: int|
                0 <= j < i ==> out@[j] == (pair_query_points()[j] / 2 * group_size) as u32,
        decreases anchors@.len() - i,
    {
        let requests: u32 = anchors[i] / 2;
        proof {
            assert(forall|j: int| 0 <= j < 20 ==> #[trigger] pair_query_points()[j] <= 65536);
            assert(requests * group_size <= 32768 * group_size) by (nonlinear_arith)
                requires
                    requests <= 32768,
            ;
        }
        out.push(requests * group_size);
        i += 1;
    }
    assert(out@ =~= speculative_query_points(group_size as int));
    out
}

/// The non-zero points of `points`, in order.
pub open spec fn positive(points: Seq<u32>) -> Seq<u32>
    decreases points.len(),
{
    if points.len() == 0 {
        seq![]
    } else if points.last() > 0 {
        positive(points.drop_last()).push(points.last())
    } else {
        positive(points.drop_last())
    }
}

fn keep_positive(points: &Vec<u32>) -> (r: Vec<u32>)
    ensures
        r@ == positive(points@),
{
    let mut out: Vec<u32> = Vec::new();
    let mut i: usize = 0;
    assert(points@.take(0) =~= Seq::<u32>::empty());
    while i < points.len()
        invariant
            i <= points@.len(),
            out@ == positive(points@.take(i as int)),
        decreases points@.len() - i,
    {
        assert(points@.take(i + 1).drop_last() =~= points@.take(i as int));
        if points[i] > 0 {
            out.push(points[i]);
        }
        i += 1;
    }
    assert(points@.take(i as int) =~= points@);
    out
}

/// The context lengths at which the counts of a verify group change form: where
/// the group first fits, and where it crosses the cap of `selected_k` rows.
pub open spec fn group_transitions(group_size: int, selected_k: int) -> Seq<u32> {
    let full = selected_k + group_size - 1;
    seq![
        (group_size - 1) as u32,
        group_size as u32,
        (group_size + 1) as u32,
        (if selected_k >= group_size - 1 {
            selected_k - (group_size - 1)
        } else {
            0
        }) as u32,
        selected_k as u32,
        (selected_k + 1) as u32,
        (if full >= 1 {
            full - 1
        } else {
            0
        }) as u32,
        full as u32,
        (full + 1) as u32,
    ]
}

/// The context axis of verify groups.
pub open spec fn speculative_cache_points(group_size: int, selected_k: int) -> Seq<u32> {
    if group_size == 2 {
        pair_cache_points()
    } else {
        ascending_of(pair_cache_points() + positive(group_transitions(group_size, selected_k)))
    }
}

pub fn speculative_cache_axis(group_size: u32, selected_k: u32) -> (r: Vec<u32>)
    requires
        0 < group_size,
        group_size != 2 ==> selected_k + group_size <= u32::MAX && group_size < u32::MAX
            && selected_k < u32::MAX,
    ensures
        r@ == speculative_cache_points(group_size as int, selected_k as int),
{
    let mut axis: Vec<u32> = pair_cache_axis();
    if group_size == 2 {
        return axis;
    }
    let full: u32 = selected_k + (group_size - 1);
    let transitions: Vec<u32> = vec![
        group_size - 1,
        group_size,
        group_size + 1,
        selected_k.saturating_sub(group_size - 1),
        selected_k,
        selected_k + 1,
        full.saturating_sub(1),
        full,
        full + 1,
    ];
    assert(transitions@ =~= group_transitions(group_size as int, selected_k as int));
    let mut more: Vec<u32> = keep_positive(&transitions);
    let ghost base = axis@;
    let ghost extra = more@;
    axis.append(&mut more);
    assert(axis@ =~= base + extra);
    ascending(&axis)
}

/// The context axis of pooled decode: the fixed points, the pool count and the cap
/// at which the counts stop growing.
pub open spec fn pooled_cache_points(index_topk: int, cap: int) -> Seq<u32> {
    ascending_of(pooled_base_points().push(index_topk as u32).push(cap as u32))
}

pub fn pooled_cache_axis(index_topk: u32, cap: u32) -> (r: Vec<u32>)
    ensures
        r@ == pooled_cache_points(index_topk as int, cap as int),
{
    let mut axis: Vec<u32> = vec![
        1, 2, 4, 8, 16, 32, 64, 128, 256, 512, 768, 1024, 1536, 4096, 8192, 16384, 32768, 65536,
        131072, 262144, 1048576,
    ];
    assert(axis@ =~= pooled_base_points());
    axis.push(index_topk);
    axis.push(cap);
    ascending(&axis)
}

#[derive(Clone, Debug, PartialEq, Eq, Hash)]
pub struct DsaSparseMlaAttentionKernelConfig {
    pub backends: Vec<&'static str>,
    pub gpu_name: String,
    pub num_heads: Dim,
    pub num_kv_heads: Dim,
    pub selected_k: u32,
    pub latent_dim: Dim,
    pub rope_dim: Dim,
    pub value_dim: Dim,
    pub softmax_scale_denominator: u32,
    pub q_dtype: DType,
    pub cache_dtype: DType,
    pub index_dtype: String,
    pub output_dtype: DType,
    pub valid_counts_pattern: ValidCountsPattern,
    pub index_distribution: String,
    pub cache_layout: String,
}

/// A pattern's description: its tag and its numbers.
pub open spec fn pattern_term(pattern: ValidCountsPattern) -> ConfigTerm {
    match pattern {
        ValidCountsPattern::UniformFull => ConfigTerm::Variant("uniform_full"@, seq![]),
        ValidCountsPattern::CausalTail => ConfigTerm::Variant("causal_tail"@, seq![]),
        ValidCountsPattern::SpeculativeGroups { group_size } => ConfigTerm::Variant(
            "speculative_groups"@,
            seq![("group_size", group_size)],
        ),
        ValidCountsPattern::PooledUniformFull { index_topk, index_kpool } => ConfigTerm::Variant(
            "pooled_uniform_full"@,
            seq![("index_topk", index_topk), ("index_kpool", index_kpool)],
        ),
    }
}

/// Different patterns are described differently.
pub proof fn patterns_are_told_apart(a: ValidCountsPattern, b: ValidCountsPattern)
    requires
        pattern_term(a) == pattern_term(b),
    ensures
        a == b,
{
    reveal_strlit("uniform_full");
    reveal_strlit("causal_tail");
    reveal_strlit("speculative_groups");
    reveal_strlit("pooled_uniform_full");
    assert("uniform_full"@.len() == 12);
    assert("causal_tail"@.len() == 11);
    assert("speculative_groups"@.len() == 18);
    assert("pooled_uniform_full"@.len() == 19);
    let numbers_a = pattern_term(a)->Variant_1;
    let numbers_b = pattern_term(b)->Variant_1;
    assert(numbers_a == numbers_b);
    assert(numbers_a.len() > 0 ==> numbers_a[0].1 == numbers_b[0].1);
    assert(numbers_a.len() > 1 ==> numbers_a[1].1 == numbers_b[1].1);
}

fn pattern_value(pattern: ValidCountsPattern) -> (r: ConfigValue)
    ensures
        r@ == pattern_term(pattern),
{
    let r = match pattern {
        ValidCountsPattern::UniformFull => ConfigValue::Variant {
            tag: "uniform_full",
            fields: Vec::new(),
        },
        ValidCountsPattern::CausalTail => ConfigValue::Variant {
            tag: "causal_tail",
            fields: Vec::new(),
        },
        ValidCountsPattern::SpeculativeGroups { group_size } => ConfigValue::Variant {
            tag: "speculative_groups",
            fields: vec![("group_size", group_size)],
        },
        ValidCountsPattern::PooledUniformFull { index_topk, index_kpool } => ConfigValue::Variant {
            tag: "pooled_uniform_full",
            fields: vec![("index_topk", index_topk), ("index_kpool", index_kpool)],
        },
    };
    assert(r@->Variant_1 =~= pattern_term(pattern)->Variant_1);
    r
}

impl KernelConfig for DsaSparseMlaAttentionKernelConfig {
    const BACKENDS_FIELD: &'static str = "DsaSparseMlaAttentionKernelConfig.backends";

    open spec fn candidates(&self) -> Seq<&'static str> {
        self.backends@
    }

    open spec fn gpu(&self) -> Seq<char> {
        self.gpu_name@
    }

    open spec fn compute(&self) -> Option<DType> {
        Some(self.q_dtype)
    }

    open spec fn kv(&self) -> Option<DType> {
        Some(self.cache_dtype)
    }

    open spec fn description(&self) -> Seq<(Seq<char>, ConfigTerm)> {
        seq![
            ("backends"@, ConfigTerm::Names(self.backends@)),
            ("gpu_name"@, ConfigTerm::Text(self.gpu_name@)),
            ("num_heads"@, ConfigTerm::Dimension(self.num_heads@)),
            ("num_kv_heads"@, ConfigTerm::Dimension(self.num_kv_heads@)),
            ("selected_k"@, ConfigTerm::Number(self.selected_k as nat)),
            ("latent_dim"@, ConfigTerm::Dimension(self.latent_dim@)),
            ("rope_dim"@, ConfigTerm::Dimension(self.rope_dim@)),
            ("value_dim"@, ConfigTerm::Dimension(self.value_dim@)),
            (
                "softmax_scale_denominator"@,
                ConfigTerm::Number(self.softmax_scale_denominator as nat),
            ),
            ("q_dtype"@, ConfigTerm::Precision(self.q_dtype)),
            ("cache_dtype"@, ConfigTerm::Precision(self.cache_dtype)),
            ("index_dtype"@, ConfigTerm::Text(self.index_dtype@)),
            ("output_dtype"@, ConfigTerm::Precision(self.output_dtype)),
            ("valid_counts_pattern"@, pattern_term(self.valid_counts_pattern)),
            ("index_distribution"@, ConfigTerm::Text(self.index_distribution@)),
            ("cache_layout"@, ConfigTerm::Text(self.cache_layout@)),
        ]
    }

    fn backends(&self) -> (r: &Vec<&'static str>) {
        &self.backends
    }

    fn gpu_name(&self) -> (r: &str) {
        self.gpu_name.as_str()
    }

    fn compute_dtype(&self) -> (r: Option<DType>) {
        Some(self.q_dtype)
    }

    fn kv_dtype(&self) -> (r: Option<DType>) {
        Some(self.cache_dtype)
    }

    fn describe_config(&self) -> (r: Vec<ConfigField>) {
        let r: Vec<ConfigField> = vec![
            field("backends", names_of(&self.backends)),
            field("gpu_name", text_of(self.gpu_name.as_str())),
            field("num_heads", dimension_of(&self.num_heads)),
            field("num_kv_heads", dimension_of(&self.num_kv_heads)),
            field("selected_k", number_of(self.selected_k)),
            field("latent_dim", dimension_of(&self.latent_dim)),
            field("rope_dim", dimension_of(&self.rope_dim)),
            field("value_dim", dimension_of(&self.value_dim)),
            field("softmax_scale_denominator", number_of(self.softmax_scale_denominator)),
            field("q_dtype", precision_of(self.q_dtype)),
            field("cache_dtype", precision_of(self.cache_dtype)),
            field("index_dtype", text_of(self.index_dtype.as_str())),
            field("output_dtype", precision_of(self.output_dtype)),
            field("valid_counts_pattern", pattern_value(self.valid_counts_pattern)),
            field("index_distribution", text_of(self.index_distribution.as_str())),
            field("cache_layout", text_of(self.cache_layout.as_str())),
        ];
        assert(fields_view(r@) =~= self.description());
        r
    }
}

#[derive(Clone, Copy, Debug, PartialEq, Eq, Hash)]
pub struct DsaSparseMlaAttentionKernelInput {
    pub num_queries: u32,
    pub num_cache_tokens: u32,
}

impl SweepCoords for DsaSparseMlaAttentionKernelInput {
    open spec fn well_shaped(&self) -> bool {
        true
    }

    open spec fn position(&self) -> Seq<Ratio> {
        seq![whole(self.num_queries as int), whole(self.num_cache_tokens as int)]
    }

    open spec fn axis_names() -> Seq<Seq<char>> {
        seq!["num_queries"@, "num_cache_tokens"@]
    }

    fn is_well_shaped(&self) -> (r: bool) {
        true
    }

    fn coords(&self) -> (r: Vec<Ratio>) {
        let r: Vec<Ratio> = vec![Ratio::from_whole(self.num_queries), Ratio::from_whole(self.num_cache_tokens)];
        assert(r@ =~= self.position());
        r
    }

    fn coord_field_names() -> (r: Vec<&'static str>) {
        let r: Vec<&'static str> = vec!["num_queries", "num_cache_tokens"];
        assert(r@.map_values(|name: &'static str| name@) =~= Self::axis_names());
        r
    }
}

/// Whether a backend launches through a library that rejects more than 32,768 query
/// rows.
pub open spec fn row_limited(backend: Seq<char>) -> bool {
    backend == "flashinfer_trtllm_fp8"@ || backend == "flashinfer_trtllm_fp8_vllm_fork"@
}

pub open spec fn any_row_limited(backends: Seq<&'static str>) -> bool {
    exists|i: int| 0 <= i < backends.len() && row_limited((#[trigger] backends[i])@)
}

fn has_row_limited(backends: &Vec<&'static str>) -> (r: bool)
    ensures
        r == any_row_limited(backends@),
{
    let mut i: usize = 0;
    while i < backends.len()
        invariant
            i <= backends@.len(),
            forall|j: int| 0 <= j < i ==> !row_limited((#[trigger] backends@[j])@),
        decreases backends@.len() - i,
    {
        let backend: &str = backends[i];
        if text_eq(backend, "flashinfer_trtllm_fp8") || text_eq(
            backend,
            "flashinfer_trtllm_fp8_vllm_fork",
        ) {
            assert(row_limited(backends@[i as int]@));
            return true;
        }
        i += 1;
    }
    false
}

/// Whether the axes of a configuration are in range.
pub open spec fn sweep_ok(config: DsaSparseMlaAttentionKernelConfig) -> bool {
    &&& pattern_ok(config.valid_counts_pattern, config.selected_k)
    &&& config.valid_counts_pattern matches ValidCountsPattern::SpeculativeGroups { group_size }
        ==> {
        &&& 32768 * group_size <= u32::MAX
        &&& group_size != 2 ==> config.selected_k + group_size <= u32::MAX
    }
}

/// Whether the pattern can be swept under a configuration.
pub fn can_sweep_pattern(config: &DsaSparseMlaAttentionKernelConfig) -> (r: bool)
    ensures
        r == sweep_ok(*config),
{
    match config.valid_counts_pattern {
        ValidCountsPattern::UniformFull => true,
        ValidCountsPattern::CausalTail => true,
        ValidCountsPattern::SpeculativeGroups { group_size } => group_size > 0 && group_size
            <= u32::MAX / 32768 && (group_size == 2 || config.selected_k <= u32::MAX - group_size),
        ValidCountsPattern::PooledUniformFull { index_topk, index_kpool } => index_topk > 0
            && index_kpool > 0 && index_topk as u64 + index_kpool as u64 - 1
            <= config.selected_k as u64,
    }
}

/// The axes that a pattern sweeps.
pub open spec fn pattern_axes(pattern: ValidCountsPattern, selected_k: u32) -> Seq<Seq<u32>> {
    match pattern {
        ValidCountsPattern::UniformFull => seq![uniform_query_points(), uniform_cache_points()],
        ValidCountsPattern::CausalTail => seq![causal_query_points(), causal_cache_points()],
        ValidCountsPattern::SpeculativeGroups { group_size } => seq![
            speculative_query_points(group_size as int),
            speculative_cache_points(group_size as int, selected_k as int),
        ],
        ValidCountsPattern::PooledUniformFull { index_topk, .. } => seq![
            pooled_query_points(),
            pooled_cache_points(index_topk as int, count_cap(pattern, selected_k)),
        ],
    }
}

pub struct DsaSparseMlaAttentionSpec;

impl KernelSpec for DsaSparseMlaAttentionSpec {
    type Config = DsaSparseMlaAttentionKernelConfig;

    type Input = DsaSparseMlaAttentionKernelInput;

    const KIND: KernelKind = "dsa_sparse_mla_attention";

    open spec fn admits(config: DsaSparseMlaAttentionKernelConfig) -> bool {
        sweep_ok(config)
    }

    open spec fn axes(
        config: DsaSparseMlaAttentionKernelConfig,
        tokens: Seq<u32>,
    ) -> Seq<Seq<u32>> {
        pattern_axes(config.valid_counts_pattern, config.selected_k)
    }

    open spec fn units(axes: Seq<Seq<u32>>) -> Seq<u32> {
        whole_units(axes)
    }

    open spec fn table(backend: Seq<char>) -> CacheKind {
        CacheKind::Cache2DLinear(Extrapolation::Weighted)
    }

    open spec fn masks() -> bool {
        true
    }

    open spec fn judges(config: DsaSparseMlaAttentionKernelConfig, cell: Seq<u32>) -> bool {
        cell.len() == 2 && (config.valid_counts_pattern matches ValidCountsPattern::SpeculativeGroups {
            group_size,
        } ==> group_size > 0)
    }

    open spec fn infeasible(config: DsaSparseMlaAttentionKernelConfig, cell: Seq<u32>) -> bool {
        !shape_occurs(config.valid_counts_pattern, cell[0] as int, cell[1] as int) || (
        any_row_limited(config.backends@) && cell[0] > 32768)
    }

    open spec fn table_position(
        config: DsaSparseMlaAttentionKernelConfig,
        input: DsaSparseMlaAttentionKernelInput,
    ) -> Seq<Ratio> {
        input.position()
    }

    open spec fn answers(
        config: DsaSparseMlaAttentionKernelConfig,
        input: DsaSparseMlaAttentionKernelInput,
    ) -> bool {
        input.well_shaped()
    }

    fn profile_kind() -> (r: KernelKind) {
        Self::KIND
    }

    fn can_sweep(config: &DsaSparseMlaAttentionKernelConfig) -> (r: bool) {
        can_sweep_pattern(config)
    }

    fn sweep_grid(config: &DsaSparseMlaAttentionKernelConfig, tokens: &Vec<u32>) -> (r: SweepGrid) {
        let pattern = config.valid_counts_pattern;
        let (a0, a1): (Vec<u32>, Vec<u32>) = match pattern {
            ValidCountsPattern::UniformFull => (uniform_query_axis(), uniform_cache_axis()),
            ValidCountsPattern::CausalTail => (causal_query_axis(), causal_cache_axis()),
            ValidCountsPattern::SpeculativeGroups { group_size } => (
                speculative_query_axis(group_size),
                speculative_cache_axis(group_size, config.selected_k),
            ),
            ValidCountsPattern::PooledUniformFull { index_topk, .. } => (
                pooled_query_axis(),
                pooled_cache_axis(index_topk, pattern.valid_count_cap(config.selected_k)),
            ),
        };
        let r = SweepGrid::new(vec![a0, a1]);
        proof {
            assert(r.points() =~= Self::axes(*config, tokens@));
            assert(r.scale() =~= whole_units(r.points()));
        }
        r
    }

    fn cache_kind(backend: &str) -> (r: CacheKind) {
        CacheKind::Cache2DLinear(Extrapolation::Weighted)
    }

    fn has_mask() -> (r: bool) {
        true
    }

    fn is_infeasible(config: &DsaSparseMlaAttentionKernelConfig, cell: &Vec<u32>) -> (r: bool) {
        let occurs: bool = match config.valid_counts_pattern {
            ValidCountsPattern::CausalTail => cell[0] <= cell[1],
            ValidCountsPattern::SpeculativeGroups { group_size } => cell[0] % group_size == 0,
            _ => true,
        };
        !occurs || (cell[0] > 32768 && has_row_limited(&config.backends))
    }

    fn can_answer(
        config: &DsaSparseMlaAttentionKernelConfig,
        input: &DsaSparseMlaAttentionKernelInput,
    ) -> (r: bool) {
        input.is_well_shaped()
    }

    fn cache_coords(
        config: &DsaSparseMlaAttentionKernelConfig,
        input: &DsaSparseMlaAttentionKernelInput,
    ) -> (r: Vec<Ratio>) {
        input.coords()
    }

    proof fn sweep_fits_table(
        config: DsaSparseMlaAttentionKernelConfig,
        tokens: Seq<u32>,
        backend: Seq<char>,
    ) {
        match config.valid_counts_pattern {
            ValidCountsPattern::SpeculativeGroups { group_size } => {
                let transitions = positive(
                    group_transitions(group_size as int, config.selected_k as int),
                );
                ascending_keeps_some(pair_cache_points() + transitions);
            },
            ValidCountsPattern::PooledUniformFull { index_topk, .. } => {
                let cap = count_cap(config.valid_counts_pattern, config.selected_k);
                ascending_keeps_some(
                    pooled_base_points().push(index_topk as u32).push(cap as u32),
                );
            },
            _ => {},
        }
    }

    proof fn sweep_is_judged(
        config: DsaSparseMlaAttentionKernelConfig,
        tokens: Seq<u32>,
        index: nat,
    ) {
        cell_on_axes(Self::axes(config, tokens), index);
    }

    proof fn queries_fit_table(
        config: DsaSparseMlaAttentionKernelConfig,
        input: DsaSparseMlaAttentionKernelInput,
        backend: Seq<char>,
    ) {
    }
}

impl CellPayloads for DsaSparseMlaAttentionSpec {
    open spec fn covers(config: DsaSparseMlaAttentionKernelConfig, cell: Seq<u32>) -> bool {
        cell.len() == 2 && config.softmax_scale_denominator > 0 && pattern_ok(
            config.valid_counts_pattern,
            config.selected_k,
        ) && (config.valid_counts_pattern == ValidCountsPattern::CausalTail ==> !(cell[0] == 0
            && cell[1] == u32::MAX))
    }

    open spec fn enumerates(config: DsaSparseMlaAttentionKernelConfig) -> bool {
        config.softmax_scale_denominator > 0
    }

    open spec fn fields(
        config: DsaSparseMlaAttentionKernelConfig,
        cell: Seq<u32>,
        backend: Seq<char>,
    ) -> Map<Seq<char>, WireValue> {
        Map::<Seq<char>, WireValue>::empty()
            .insert("num_queries"@, WireValue::Number(cell[0] as nat))
            .insert("num_cache_tokens"@, WireValue::Number(cell[1] as nat))
            .insert("num_heads"@, WireValue::Number(config.num_heads@.fold() as nat))
            .insert("num_kv_heads"@, WireValue::Number(config.num_kv_heads@.fold() as nat))
            .insert("selected_k"@, WireValue::Number(config.selected_k as nat))
            .insert("latent_dim"@, WireValue::Number(config.latent_dim@.fold() as nat))
            .insert("rope_dim"@, WireValue::Number(config.rope_dim@.fold() as nat))
            .insert("value_dim"@, WireValue::Number(config.value_dim@.fold() as nat))
            .insert(
                "softmax_scale"@,
                WireValue::Real(Real::Reciprocal(config.softmax_scale_denominator)),
            )
            .insert("q_dtype"@, WireValue::Text(dtype_text(config.q_dtype)))
            .insert("cache_dtype"@, WireValue::Text(dtype_text(config.cache_dtype)))
            .insert("index_dtype"@, WireValue::Text(config.index_dtype@))
            .insert("output_dtype"@, WireValue::Text(dtype_text(config.output_dtype)))
            .insert("valid_counts"@, WireValue::Text(
                counts_text(
                    config.valid_counts_pattern,
                    cell[0] as int,
                    cell[1] as int,
                    count_cap(config.valid_counts_pattern, config.selected_k),
                ),
            ))
            .insert("index_distribution"@, WireValue::Text(config.index_distribution@))
            .insert("cache_layout"@, WireValue::Text(config.cache_layout@))
            .insert("backend"@, WireValue::Text(backend))
    }

    fn can_enumerate(config: &DsaSparseMlaAttentionKernelConfig) -> (r: bool) {
        config.softmax_scale_denominator > 0
    }

    fn cell_payload(
        config: &DsaSparseMlaAttentionKernelConfig,
        cell: &Vec<u32>,
        backend: &str,
    ) -> (r: ArgsPayload) {
        ArgsPayload::new()
            .with("num_queries", number_value(cell[0]))
            .with("num_cache_tokens", number_value(cell[1]))
            .with("num_heads", number_value(config.num_heads.get()))
            .with("num_kv_heads", number_value(config.num_kv_heads.get()))
            .with("selected_k", number_value(config.selected_k))
            .with("latent_dim", number_value(config.latent_dim.get()))
            .with("rope_dim", number_value(config.rope_dim.get()))
            .with("value_dim", number_value(config.value_dim.get()))
            .with(
                "softmax_scale",
                PayloadValue::Real(Real::Reciprocal(config.softmax_scale_denominator)),
            )
            .with("q_dtype", text_value(config.q_dtype.as_str()))
            .with("cache_dtype", text_value(config.cache_dtype.as_str()))
            .with("index_dtype", text_value(config.index_dtype.as_str()))
            .with("output_dtype", text_value(config.output_dtype.as_str()))
            .with("valid_counts", PayloadValue::Text(
                canonical_valid_counts(
                    config.valid_counts_pattern,
                    cell[0],
                    cell[1],
                    config.valid_counts_pattern.valid_count_cap(config.selected_k),
                ),
            ))
            .with("index_distribution", text_value(config.index_distribution.as_str()))
            .with("cache_layout", text_value(config.cache_layout.as_str()))
            .with("backend", text_value(backend))
    }

    proof fn sweep_is_covered(
        config: DsaSparseMlaAttentionKernelConfig,
        tokens: Seq<u32>,
        index: nat,
    ) {
        cell_on_axes(Self::axes(config, tokens), index);
        let cell = cell_at(Self::axes(config, tokens), index);
        if config.valid_counts_pattern == ValidCountsPattern::CausalTail {
            assert(Self::axes(config, tokens)[0].contains(cell[0]));
            assert(forall|i: int|
                0 <= i < causal_query_points().len() ==> #[trigger] causal_query_points()[i] >= 1);
        }
    }

    proof fn fields_name_backend(
        config: DsaSparseMlaAttentionKernelConfig,
        cell: Seq<u32>,
        backend: Seq<char>,
    ) {
    }

    open spec fn describes(
        config: DsaSparseMlaAttentionKernelConfig,
        fields: Map<Seq<char>, WireValue>,
        input: DsaSparseMlaAttentionKernelInput,
    ) -> bool {
        &&& number_at(fields, "num_queries"@) == input.num_queries
        &&& number_at(fields, "num_cache_tokens"@) == input.num_cache_tokens
    }

    open spec fn occurs(config: DsaSparseMlaAttentionKernelConfig, cell: Seq<u32>) -> bool {
        true
    }

    open spec fn kept_back() -> Set<Seq<char>> {
        set!["backends"@, "gpu_name"@, "softmax_scale_denominator"@, "valid_counts_pattern"@]
    }

    proof fn payload_stands_at_its_cell(
        config: DsaSparseMlaAttentionKernelConfig,
        tokens: Seq<u32>,
        index: nat,
        backend: Seq<char>,
        input: DsaSparseMlaAttentionKernelInput,
    ) {
        cell_on_axes(Self::axes(config, tokens), index);
        reveal_strlit("num_queries");
        reveal_strlit("num_cache_tokens");
        reveal_strlit("num_heads");
        reveal_strlit("num_kv_heads");
        reveal_strlit("selected_k");
        reveal_strlit("latent_dim");
        reveal_strlit("rope_dim");
        reveal_strlit("value_dim");
        reveal_strlit("softmax_scale");
        reveal_strlit("q_dtype");
        reveal_strlit("cache_dtype");
        reveal_strlit("index_dtype");
        reveal_strlit("output_dtype");
        reveal_strlit("valid_counts");
        reveal_strlit("index_distribution");
        reveal_strlit("cache_layout");
        reveal_strlit("backend");
        assert("num_queries"@.len() == 11 && "num_queries"@[0] == 'n');
        assert("num_cache_tokens"@.len() == 16);
        assert("num_heads"@.len() == 9);
        assert("num_kv_heads"@.len() == 12);
        assert("selected_k"@.len() == 10);
        assert("latent_dim"@.len() == 10);
        assert("rope_dim"@.len() == 8);
        assert("value_dim"@.len() == 9);
        assert("softmax_scale"@.len() == 13);
        assert("q_dtype"@.len() == 7);
        assert("cache_dtype"@.len() == 11 && "cache_dtype"@[0] == 'c');
        assert("index_dtype"@.len() == 11 && "index_dtype"@[0] == 'i');
        assert("output_dtype"@.len() == 12);
        assert("valid_counts"@.len() == 12);
        assert("index_distribution"@.len() == 18);
        assert("cache_layout"@.len() == 12);
        assert("backend"@.len() == 7);
    }

    proof fn payload_carries_config(
        config: DsaSparseMlaAttentionKernelConfig,
        cell: Seq<u32>,
        backend: Seq<char>,
        i: int,
    ) {
        reveal_strlit("num_heads");
        reveal_strlit("num_kv_heads");
        reveal_strlit("selected_k");
        reveal_strlit("latent_dim");
        reveal_strlit("rope_dim");
        reveal_strlit("value_dim");
        reveal_strlit("softmax_scale");
        reveal_strlit("q_dtype");
        reveal_strlit("cache_dtype");
        reveal_strlit("index_dtype");
        reveal_strlit("output_dtype");
        reveal_strlit("valid_counts");
        reveal_strlit("index_distribution");
        reveal_strlit("cache_layout");
        reveal_strlit("backend");
        assert("num_heads"@.len() == 9 && "num_heads"@[0] == 'n');
        assert("num_kv_heads"@.len() == 12 && "num_kv_heads"@[0] == 'n');
        assert("selected_k"@.len() == 10 && "selected_k"@[0] == 's');
        assert("latent_dim"@.len() == 10 && "latent_dim"@[0] == 'l');
        assert("rope_dim"@.len() == 8);
        assert("value_dim"@.len() == 9 && "value_dim"@[0] == 'v');
        assert("softmax_scale"@.len() == 13);
        assert("q_dtype"@.len() == 7 && "q_dtype"@[0] == 'q');
        assert("cache_dtype"@.len() == 11 && "cache_dtype"@[0] == 'c');
        assert("index_dtype"@.len() == 11 && "index_dtype"@[0] == 'i');
        assert("output_dtype"@.len() == 12 && "output_dtype"@[0] == 'o');
        assert("valid_counts"@.len() == 12 && "valid_counts"@[0] == 'v');
        assert("index_distribution"@.len() == 18);
        assert("cache_layout"@.len() == 12 && "cache_layout"@[0] == 'c');
        assert("backend"@.len() == 7 && "backend"@[0] == 'b');
        let fields = Self::fields(config, cell, backend);
        let terms = config.description();
        assert(carries(fields, terms[2]));
        assert(carries(fields, terms[3]));
        assert(carries(fields, terms[4]));
        assert(carries(fields, terms[5]));
        assert(carries(fields, terms[6]));
        assert(carries(fields, terms[7]));
        assert(carries(fields, terms[9]));
        assert(carries(fields, terms[10]));
        assert(carries(fields, terms[11]));
        assert(carries(fields, terms[12]));
        assert(carries(fields, terms[14]));
        assert(carries(fields, terms[15]));
    }

    proof fn described_alike_is_profiled_alike(
        a: DsaSparseMlaAttentionKernelConfig,
        b: DsaSparseMlaAttentionKernelConfig,
        tokens: Seq<u32>,
        cell: Seq<u32>,
        backend: Seq<char>,
    ) {
        let (x, y) = (a.description(), b.description());
        assert(x[0] == y[0]);
        assert(x[1] == y[1]);
        assert(x[2] == y[2]);
        assert(x[3] == y[3]);
        assert(x[4] == y[4]);
        assert(x[5] == y[5]);
        assert(x[6] == y[6]);
        assert(x[7] == y[7]);
        assert(x[8] == y[8]);
        assert(x[9] == y[9]);
        assert(x[10] == y[10]);
        assert(x[11] == y[11]);
        assert(x[12] == y[12]);
        assert(x[13] == y[13]);
        assert(x[14] == y[14]);
        assert(x[15] == y[15]);
        patterns_are_told_apart(a.valid_counts_pattern, b.valid_counts_pattern);
    }
}

/// The softmax scale is one over the denominator that the configuration holds.
pub proof fn softmax_scale_is_carried(
    config: DsaSparseMlaAttentionKernelConfig,
    cell: Seq<u32>,
    backend: Seq<char>,
)
    ensures
        DsaSparseMlaAttentionSpec::fields(config, cell, backend)["softmax_scale"@]
            == WireValue::Real(Real::Reciprocal(config.softmax_scale_denominator)),
{
    reveal_strlit("softmax_scale");
    reveal_strlit("q_dtype");
    reveal_strlit("cache_dtype");
    reveal_strlit("index_dtype");
    reveal_strlit("output_dtype");
    reveal_strlit("valid_counts");
    reveal_strlit("index_distribution");
    reveal_strlit("cache_layout");
    reveal_strlit("backend");
    assert("softmax_scale"@.len() == 13);
    assert("q_dtype"@.len() == 7);
    assert("cache_dtype"@.len() == 11);
    assert("index_dtype"@.len() == 11);
    assert("output_dtype"@.len() == 12);
    assert("valid_counts"@.len() == 12);
    assert("index_distribution"@.len() == 18);
    assert("cache_layout"@.len() == 12);
    assert("backend"@.len() == 7);
}

/// The counts of a launch are those of its pattern, written compactly, where the pattern
/// has the shape.
pub proof fn payload_tells_its_counts(
    config: DsaSparseMlaAttentionKernelConfig,
    cell: Seq<u32>,
    backend: Seq<char>,
)
    requires
        cell[0] > 0,
        pattern_ok(config.valid_counts_pattern, config.selected_k),
        shape_occurs(config.valid_counts_pattern, cell[0] as int, cell[1] as int),
    ensures
        ({
            let cap = count_cap(config.valid_counts_pattern, config.selected_k);
            text_at(
                DsaSparseMlaAttentionSpec::fields(config, cell, backend),
                "valid_counts"@,
            ) == compact_form(
                valid_counts(config.valid_counts_pattern, cell[0] as int, cell[1] as int, cap),
                true,
                cap,
            )
        }),
{
    reveal_strlit("valid_counts");
    reveal_strlit("index_distribution");
    reveal_strlit("cache_layout");
    reveal_strlit("backend");
    assert("valid_counts"@.len() == 12 && "valid_counts"@[0] == 'v');
    assert("index_distribution"@.len() == 18);
    assert("cache_layout"@.len() == 12 && "cache_layout"@[0] == 'c');
    assert("backend"@.len() == 7);
    counts_text_is_compact(
        config.valid_counts_pattern,
        cell[0] as int,
        cell[1] as int,
        count_cap(config.valid_counts_pattern, config.selected_k),
    );
}

/// How many context rows a row sees, by its pattern: as many as there are, up to the cap,
/// at the end of a causal ramp or of a verify group, and everywhere in the other patterns;
/// a row before the end sees one fewer than the next, unless both are capped or see none.
pub proof fn rows_step_through_context(
    pattern: ValidCountsPattern,
    q: int,
    s: int,
    k: int,
    i: int,
)
    requires
        0 <= i < q <= u32::MAX,
        0 <= s <= u32::MAX,
        0 <= k <= u32::MAX,
        pattern matches ValidCountsPattern::SpeculativeGroups { group_size } ==> group_size > 0,
        shape_occurs(pattern, q, s),
    ensures
        ({
            let counts = valid_counts(pattern, q, s, k);
            let ends = match pattern {
                ValidCountsPattern::CausalTail => i + 1 == q,
                ValidCountsPattern::SpeculativeGroups { group_size } => (i + 1) % (
                group_size as int) == 0,
                _ => true,
            };
            &&& counts.len() == q
            &&& counts[i] <= s && counts[i] <= k
            &&& ends ==> counts[i] == s || counts[i] == k
            &&& !ends ==> counts[i + 1] == counts[i] + 1 || counts[i] == counts[i + 1] == k || (
            counts[i] == counts[i + 1] == 0 && pattern is SpeculativeGroups)
        }),
{
    if let ValidCountsPattern::SpeculativeGroups { group_size } = pattern {
        let g = group_size as int;
        let place = i % g;
        assert(0 <= place < g) by (nonlinear_arith)
            requires
                g > 0,
                place == i % g,
        ;
        let block = i / g;
        assert(i == g * block + place) by (nonlinear_arith)
            requires
                g > 0,
                place == i % g,
                block == i / g,
        ;
        if place + 1 < g {
            assert(g * block + (place + 1) == i + 1);
            vstd::arithmetic::div_mod::lemma_mod_multiples_vanish(block, place + 1, g);
            vstd::arithmetic::div_mod::lemma_small_mod((place + 1) as nat, g as nat);
        } else {
            vstd::arithmetic::div_mod::lemma_mod_multiples_vanish(block, g, g);
            vstd::arithmetic::div_mod::lemma_mod_self_0(g);
        }
        if place + 1 < g {
            let whole = q / g;
            assert(q == g * whole) by (nonlinear_arith)
                requires
                    g > 0,
                    q % g == 0,
                    whole == q / g,
            ;
            assert(i + 1 < q) by (nonlinear_arith)
                requires
                    q == g * whole,
                    i == g * block + place,
                    i < q,
                    place + 1 < g,
                    0 <= place,
                    g > 0,
            ;
        }
    }
}

/// The kernel computes in the precision that is described as `q_dtype` and keeps its cache
/// in the precision that is described as `cache_dtype`.
pub proof fn precisions_are_described(config: DsaSparseMlaAttentionKernelConfig)
    ensures
        config.compute() matches Some(precision) && config.description()[9] == (
            "q_dtype"@,
            ConfigTerm::Precision(precision),
        ),
        config.kv() matches Some(precision) && config.description()[10] == (
            "cache_dtype"@,
            ConfigTerm::Precision(precision),
        ),
{
}

} // verus!
