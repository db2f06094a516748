//! Compact text form of a vector of per-row counts.
//!
//! Four shapes, tried in this order:
//!
//! * `u:<value>x<rows>`: every row holds the same count;
//! * `r:<first>..<last>`: each row holds one more than the row before;
//! * `c:<first>..<last>@<cap>`: such a ramp clipped at a cap that it crosses;
//! * `g:(<counts>)x<repeats>`: the shortest repeating group, written out once.

use crate::text::{decimal, decimal_list, push_decimal, push_decimal_list};
use vstd::prelude::*;

verus! {

pub open spec fn min_int(a: int, b: int) -> int {
    if a <= b {
        a
    } else {
        b
    }
}

/// Every row holds the same count.
pub open spec fn is_uniform(v: Seq<u32>) -> bool {
    forall|i: int| 0 <= i < v.len() ==> #[trigger] v[i] == v[0]
}

/// Row `i` holds `v[0] + i`, clipped at `cap`.
pub open spec fn is_capped_ramp(v: Seq<u32>, cap: int) -> bool {
    forall|i: int| 0 <= i < v.len() ==> #[trigger] v[i] == min_int(v[0] + i, cap)
}

/// The count an unclipped ramp over the rows of `v` would end at.
pub open spec fn unclipped_last(v: Seq<u32>) -> int {
    v[0] + v.len() - 1
}

/// A ramp that starts below `cap` and would end above it.
pub open spec fn is_clipped_ramp(v: Seq<u32>, cap: int) -> bool {
    v[0] < cap && cap < unclipped_last(v) && is_capped_ramp(v, cap)
}

/// `v` is its first `p` rows repeated a whole number of times.
pub open spec fn repeats_every(v: Seq<u32>, p: int) -> bool {
    &&& 0 < p <= v.len()
    &&& v.len() as int % p == 0
    &&& forall|i: int| 0 <= i < v.len() ==> #[trigger] v[i] == v[i % p]
}

/// `p` is the shortest repeating period of `v`.
pub open spec fn is_shortest_period(v: Seq<u32>, p: int) -> bool {
    repeats_every(v, p) && forall|d: int| 0 < d < p ==> !repeats_every(v, d)
}

/// The shortest repeating period of `v`.
pub open spec fn shortest_period(v: Seq<u32>) -> int {
    choose|p: int| is_shortest_period(v, p)
}

pub open spec fn uniform_text(value: int, rows: int) -> Seq<char> {
    "u:"@ + decimal(value as nat) + "x"@ + decimal(rows as nat)
}

pub open spec fn ramp_text(first: int, last: int) -> Seq<char> {
    "r:"@ + decimal(first as nat) + ".."@ + decimal(last as nat)
}

pub open spec fn clipped_text(first: int, last: int, cap: int) -> Seq<char> {
    "c:"@ + decimal(first as nat) + ".."@ + decimal(last as nat) + "@"@ + decimal(cap as nat)
}

pub open spec fn group_text(group: Seq<u32>, repeats: int) -> Seq<char> {
    "g:("@ + decimal_list(group) + ")x"@ + decimal(repeats as nat)
}

/// The compact form of a non-empty count vector.
pub open spec fn compact_form(v: Seq<u32>, allow_clipped: bool, cap: int) -> Seq<char> {
    if is_uniform(v) {
        uniform_text(v[0] as int, v.len() as int)
    } else if is_capped_ramp(v, u32::MAX as int) {
        ramp_text(v[0] as int, v.last() as int)
    } else if allow_clipped && is_clipped_ramp(v, cap) {
        clipped_text(v[0] as int, unclipped_last(v), cap)
    } else {
        let p = shortest_period(v);
        group_text(v.take(p), v.len() as int / p)
    }
}

/// There is only one shortest period.
pub proof fn shortest_period_is(v: Seq<u32>, p: int)
    requires
        is_shortest_period(v, p),
    ensures
        shortest_period(v) == p,
{
    let q = shortest_period(v);
    assert(is_shortest_period(v, q));
    if q < p {
        assert(!repeats_every(v, q));
    }
    if p < q {
        assert(!repeats_every(v, p));
    }
}

/// Append `u:<value>x<rows>`.
pub fn push_uniform(out: &mut String, value: u64, rows: u64)
    ensures
        final(out)@ == old(out)@ + uniform_text(value as int, rows as int),
{
    out.append("u:");
    push_decimal(out, value);
    out.append("x");
    push_decimal(out, rows);
    assert(out@ =~= old(out)@ + uniform_text(value as int, rows as int));
}

/// Append `r:<first>..<last>`.
pub fn push_ramp(out: &mut String, first: u64, last: u64)
    ensures
        final(out)@ == old(out)@ + ramp_text(first as int, last as int),
{
    out.append("r:");
    push_decimal(out, first);
    out.append("..");
    push_decimal(out, last);
    assert(out@ =~= old(out)@ + ramp_text(first as int, last as int));
}

/// Append `c:<first>..<last>@<cap>`.
pub fn push_clipped(out: &mut String, first: u64, last: u64, cap: u64)
    ensures
        final(out)@ == old(out)@ + clipped_text(first as int, last as int, cap as int),
{
    out.append("c:");
    push_decimal(out, first);
    out.append("..");
    push_decimal(out, last);
    out.append("@");
    push_decimal(out, cap);
    assert(out@ =~= old(out)@ + clipped_text(first as int, last as int, cap as int));
}

/// Append `g:(<counts>)x<repeats>` for the first `size` counts of `group`.
pub fn push_group(out: &mut String, group: &[u32], size: usize, repeats: u64)
    requires
        size <= group@.len(),
    ensures
        final(out)@ == old(out)@ + group_text(group@.take(size as int), repeats as int),
{
    out.append("g:(");
    push_decimal_list(out, group, size);
    out.append(")x");
    push_decimal(out, repeats);
    assert(out@ =~= old(out)@ + group_text(group@.take(size as int), repeats as int));
}

/// Whether every count equals the first.
pub fn check_uniform(values: &[u32]) -> (r: bool)
    requires
        values@.len() > 0,
    ensures
        r == is_uniform(values@),
{
    let mut i: usize = 0;
    while i < values.len()
        invariant
            values@.len() > 0,
            i <= values@.len(),
            forall|j: int| 0 <= j < i ==> #[trigger] values@[j] == values@[0],
        decreases values@.len() - i,
    {
        if values[i] != values[0] {
            return false;
        }
        i += 1;
    }
    true
}

/// Whether the counts form a ramp clipped at `cap`.
pub fn check_capped_ramp(values: &[u32], cap: u32) -> (r: bool)
    requires
        values@.len() > 0,
        values@.len() + u32::MAX <= u64::MAX,
    ensures
        r == is_capped_ramp(values@, cap as int),
{
    let mut i: usize = 0;
    while i < values.len()
        invariant
            values@.len() > 0,
            values@.len() + u32::MAX <= u64::MAX,
            i <= values@.len(),
            forall|j: int|
                0 <= j < i ==> #[trigger] values@[j] == min_int(values@[0] + j, cap as int),
        decreases values@.len() - i,
    {
        let ramp: u64 = values[0] as u64 + i as u64;
        let expected: u64 = if ramp <= cap as u64 {
            ramp
        } else {
            cap as u64
        };
        if values[i] as u64 != expected {
            assert(values@[i as int] != min_int(values@[0] + i, cap as int));
            return false;
        }
        i += 1;
    }
    true
}

/// Whether the counts repeat every `p` rows.
fn check_repeats(values: &[u32], p: usize) -> (r: bool)
    requires
        0 < p <= values@.len(),
    ensures
        r == repeats_every(values@, p as int),
{
    if values.len() % p != 0 {
        return false;
    }
    let mut i: usize = 0;
    while i < values.len()
        invariant
            0 < p <= values@.len(),
            i <= values@.len(),
            forall|j: int| 0 <= j < i ==> #[trigger] values@[j] == values@[j % (p as int)],
        decreases values@.len() - i,
    {
        if values[i] != values[i % p] {
            assert(values@[i as int] != values@[i as int % (p as int)]);
            return false;
        }
        i += 1;
    }
    true
}

fn find_shortest_period(values: &[u32]) -> (p: usize)
    requires
        values@.len() > 0,
    ensures
        is_shortest_period(values@, p as int),
{
    let mut p: usize = 1;
    while p < values.len()
        invariant
            1 <= p <= values@.len(),
            forall|d: int| 0 < d < p ==> !repeats_every(values@, d),
        decreases values@.len() - p,
    {
        if check_repeats(values, p) {
            return p;
        }
        p += 1;
    }
    proof {
        let n = values@.len() as int;
        assert(n % n == 0) by (nonlinear_arith)
            requires
                n > 0,
        ;
        assert forall|i: int| 0 <= i < n implies #[trigger] values@[i] == values@[i % n] by {
            vstd::arithmetic::div_mod::lemma_small_mod(i as nat, n as nat);
        }
        assert(repeats_every(values@, n));
    }
    p
}

/// The compact form of `values`; `allow_clipped` admits ramps clipped at `selected_k`.
pub fn encode_vector(values: &[u32], allow_clipped: bool, selected_k: u32) -> (r: String)
    requires
        values@.len() > 0,
        values@.len() + u32::MAX <= u64::MAX,
    ensures
        r@ == compact_form(values@, allow_clipped, selected_k as int),
{
    let mut out = String::new();
    let rows: u64 = values.len() as u64;
    let first: u64 = values[0] as u64;
    if check_uniform(values) {
        push_uniform(&mut out, first, rows);
        assert(out@ =~= compact_form(values@, allow_clipped, selected_k as int));
        return out;
    }
    if check_capped_ramp(values, u32::MAX) {
        push_ramp(&mut out, first, values[values.len() - 1] as u64);
        assert(out@ =~= compact_form(values@, allow_clipped, selected_k as int));
        return out;
    }
    let last: u64 = first + rows - 1;
    if allow_clipped && first < selected_k as u64 && (selected_k as u64) < last
        && check_capped_ramp(values, selected_k) {
        push_clipped(&mut out, first, last, selected_k as u64);
        assert(out@ =~= compact_form(values@, allow_clipped, selected_k as int));
        return out;
    }
    let p: usize = find_shortest_period(values);
    proof {
        shortest_period_is(values@, p as int);
    }
    push_group(&mut out, values, p, (values.len() / p) as u64);
    assert(out@ =~= compact_form(values@, allow_clipped, selected_k as int));
    out
}

/// A group of counts that never decreases.
pub open spec fn never_decreases(group: Seq<u32>) -> bool {
    forall|i: int, j: int| 0 <= i <= j < group.len() ==> group[i] <= group[j]
}

/// `group` written `repeats` times over.
pub open spec fn repeated(group: Seq<u32>, repeats: int) -> Seq<u32> {
    Seq::new((group.len() * repeats) as nat, |i: int| group[i % (group.len() as int)])
}

/// The shortest period of a repeated group that never decreases and is not
/// uniform is the group itself.
pub proof fn repeated_group_period(group: Seq<u32>, repeats: int)
    requires
        group.len() > 0,
        repeats > 0,
        never_decreases(group),
        group[0] != group.last(),
    ensures
        is_shortest_period(repeated(group, repeats), group.len() as int),
        repeated(group, repeats).take(group.len() as int) =~= group,
        repeated(group, repeats).len() as int / group.len() as int == repeats,
{
    let g = group.len() as int;
    let v = repeated(group, repeats);
    assert(v.len() == g * repeats);
    assert(g * repeats >= g && (g * repeats) % g == 0 && (g * repeats) / g == repeats)
        by (nonlinear_arith)
        requires
            g > 0,
            repeats > 0,
    ;
    assert forall|i: int| 0 <= i < g implies #[trigger] v[i] == group[i] by {
        vstd::arithmetic::div_mod::lemma_small_mod(i as nat, g as nat);
    }
    assert forall|i: int| 0 <= i < v.len() implies #[trigger] v[i] == v[i % g] by {
        assert(0 <= i % g < g);
        assert(v[i % g] == group[i % g]);
    }
    assert(repeats_every(v, g));
    assert forall|d: int| 0 < d < g implies !repeats_every(v, d) by {
        if repeats_every(v, d) {
            assert(v[d] == v[d % d]);
            assert(d % d == 0) by (nonlinear_arith)
                requires
                    d > 0,
            ;
            assert(group[d] == group[0]);
            no_rise_after_repeat(group, v, d, g - 1);
        }
    }
}

/// Within a group that repeats every `d` rows and never decreases, no row up to
/// `upto` rises above the first.
proof fn no_rise_after_repeat(group: Seq<u32>, v: Seq<u32>, d: int, upto: int)
    requires
        0 < d < group.len(),
        0 <= upto < group.len() <= v.len(),
        never_decreases(group),
        repeats_every(v, d),
        forall|i: int| 0 <= i < group.len() ==> #[trigger] v[i] == group[i],
        group[d] == group[0],
    ensures
        group[upto] == group[0],
    decreases upto,
{
    if upto <= d {
        assert(group[0] <= group[upto] <= group[d]);
    } else {
        no_rise_after_repeat(group, v, d, upto - d);
        assert(v[upto] == v[upto % d]);
        assert(v[upto - d] == v[(upto - d) % d]);
        assert((upto - d) % d == upto % d) by {
            vstd::arithmetic::div_mod::lemma_mod_sub_multiples_vanish(upto, d);
        }
    }
}

} // verus!
