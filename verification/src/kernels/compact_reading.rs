//! The compact form of a count vector gives the vector back.

use crate::kernels::compact_counts::{
    clipped_text, compact_form, group_text, is_capped_ramp, is_clipped_ramp, is_shortest_period,
    is_uniform, min_int, ramp_text, repeats_every, shortest_period, unclipped_last, uniform_text,
};
use crate::text::{
    decimal, decimal_is_digits, decimal_list, decimal_list_is_digits,
    decimal_list_tells_lists_apart, decimal_tells_numbers_apart, is_digit, is_digit_or_comma,
    made_of, split_is_unique,
};
use vstd::prelude::*;

verus! {

/// Every non-empty vector has a shortest period.
pub proof fn shortest_period_exists(v: Seq<u32>)
    requires
        v.len() > 0,
    ensures
        is_shortest_period(v, shortest_period(v)),
{
    seek_period(v, 1);
}

proof fn seek_period(v: Seq<u32>, from: int)
    requires
        0 < from <= v.len(),
        forall|d: int| 0 < d < from ==> !repeats_every(v, d),
    ensures
        exists|p: int| is_shortest_period(v, p),
    decreases v.len() - from,
{
    if repeats_every(v, from) {
        assert(is_shortest_period(v, from));
    } else {
        if from == v.len() {
            let n = v.len() as int;
            assert(n % n == 0) by (nonlinear_arith)
                requires
                    n > 0,
            ;
            assert forall|i: int| 0 <= i < v.len() implies #[trigger] v[i] == v[i % from] by {
                assert(i % n == i) by (nonlinear_arith)
                    requires
                        0 <= i < n,
                ;
            }
            assert(repeats_every(v, from));
        }
        seek_period(v, from + 1);
    }
}

/// Which of the four shapes a vector takes.
pub enum Shape {
    Uniform,
    Ramp,
    Clipped,
    Group,
}

pub open spec fn shape_of(v: Seq<u32>, allow_clipped: bool, cap: int) -> Shape {
    if is_uniform(v) {
        Shape::Uniform
    } else if is_capped_ramp(v, u32::MAX as int) {
        Shape::Ramp
    } else if allow_clipped && is_clipped_ramp(v, cap) {
        Shape::Clipped
    } else {
        Shape::Group
    }
}

pub open spec fn shape_letter(shape: Shape) -> char {
    match shape {
        Shape::Uniform => 'u',
        Shape::Ramp => 'r',
        Shape::Clipped => 'c',
        Shape::Group => 'g',
    }
}

/// A compact form starts with the letter of its vector's shape and a colon.
pub proof fn compact_form_names_its_shape(v: Seq<u32>, allow_clipped: bool, cap: int)
    ensures
        compact_form(v, allow_clipped, cap).len() >= 2,
        compact_form(v, allow_clipped, cap)[0] == shape_letter(shape_of(v, allow_clipped, cap)),
        compact_form(v, allow_clipped, cap)[1] == ':',
{
    reveal_strlit("u:");
    reveal_strlit("r:");
    reveal_strlit("c:");
    reveal_strlit("g:(");
}

proof fn decimal_made_of_digits(n: nat)
    ensures
        made_of(decimal(n), |c: char| is_digit(c)),
{
    decimal_is_digits(n);
    let kind = |c: char| is_digit(c);
    assert forall|i: int| 0 <= i < decimal(n).len() implies kind(#[trigger] decimal(n)[i]) by {
        assert(is_digit(decimal(n)[i]));
    }
}

/// A number and what follows it can be told from the text.
pub proof fn number_splits_off(a: nat, rest_a: Seq<char>, b: nat, rest_b: Seq<char>)
    requires
        decimal(a) + rest_a == decimal(b) + rest_b,
        rest_a.len() > 0 ==> !is_digit(rest_a[0]),
        rest_b.len() > 0 ==> !is_digit(rest_b[0]),
    ensures
        a == b,
        rest_a == rest_b,
{
    decimal_made_of_digits(a);
    decimal_made_of_digits(b);
    split_is_unique(decimal(a), rest_a, decimal(b), rest_b, |c: char| is_digit(c));
    decimal_tells_numbers_apart(a, b);
}

proof fn uniform_text_tells_apart(value_a: int, rows_a: int, value_b: int, rows_b: int)
    requires
        value_a >= 0,
        rows_a >= 0,
        value_b >= 0,
        rows_b >= 0,
        uniform_text(value_a, rows_a) == uniform_text(value_b, rows_b),
    ensures
        value_a == value_b,
        rows_a == rows_b,
{
    reveal_strlit("u:");
    reveal_strlit("x");
    let tail_a = "x"@ + decimal(rows_a as nat);
    let tail_b = "x"@ + decimal(rows_b as nat);
    let body_a = decimal(value_a as nat) + tail_a;
    let body_b = decimal(value_b as nat) + tail_b;
    assert(uniform_text(value_a, rows_a) =~= "u:"@ + body_a);
    assert(uniform_text(value_b, rows_b) =~= "u:"@ + body_b);
    assert(("u:"@ + body_a).skip(2) =~= body_a);
    assert(("u:"@ + body_b).skip(2) =~= body_b);
    number_splits_off(value_a as nat, tail_a, value_b as nat, tail_b);
    assert(tail_a.skip(1) =~= decimal(rows_a as nat));
    assert(tail_b.skip(1) =~= decimal(rows_b as nat));
    decimal_tells_numbers_apart(rows_a as nat, rows_b as nat);
}

proof fn ramp_text_tells_apart(first_a: int, last_a: int, first_b: int, last_b: int)
    requires
        first_a >= 0,
        last_a >= 0,
        first_b >= 0,
        last_b >= 0,
        ramp_text(first_a, last_a) == ramp_text(first_b, last_b),
    ensures
        first_a == first_b,
        last_a == last_b,
{
    reveal_strlit("r:");
    reveal_strlit("..");
    let tail_a = ".."@ + decimal(last_a as nat);
    let tail_b = ".."@ + decimal(last_b as nat);
    let body_a = decimal(first_a as nat) + tail_a;
    let body_b = decimal(first_b as nat) + tail_b;
    assert(ramp_text(first_a, last_a) =~= "r:"@ + body_a);
    assert(ramp_text(first_b, last_b) =~= "r:"@ + body_b);
    assert(("r:"@ + body_a).skip(2) =~= body_a);
    assert(("r:"@ + body_b).skip(2) =~= body_b);
    number_splits_off(first_a as nat, tail_a, first_b as nat, tail_b);
    assert(tail_a.skip(2) =~= decimal(last_a as nat));
    assert(tail_b.skip(2) =~= decimal(last_b as nat));
    decimal_tells_numbers_apart(last_a as nat, last_b as nat);
}

proof fn clipped_text_tells_apart(first_a: int, last_a: int, first_b: int, last_b: int, cap: int)
    requires
        first_a >= 0,
        last_a >= 0,
        first_b >= 0,
        last_b >= 0,
        clipped_text(first_a, last_a, cap) == clipped_text(first_b, last_b, cap),
    ensures
        first_a == first_b,
        last_a == last_b,
{
    reveal_strlit("c:");
    reveal_strlit("..");
    reveal_strlit("@");
    let end = "@"@ + decimal(cap as nat);
    let inner_a = decimal(last_a as nat) + end;
    let inner_b = decimal(last_b as nat) + end;
    let tail_a = ".."@ + inner_a;
    let tail_b = ".."@ + inner_b;
    let body_a = decimal(first_a as nat) + tail_a;
    let body_b = decimal(first_b as nat) + tail_b;
    assert(clipped_text(first_a, last_a, cap) == "c:"@ + body_a) by {
        assert(clipped_text(first_a, last_a, cap) =~= "c:"@ + body_a);
    }
    assert(clipped_text(first_b, last_b, cap) == "c:"@ + body_b) by {
        assert(clipped_text(first_b, last_b, cap) =~= "c:"@ + body_b);
    }
    assert(("c:"@ + body_a).skip(2) =~= body_a);
    assert(("c:"@ + body_b).skip(2) =~= body_b);
    number_splits_off(first_a as nat, tail_a, first_b as nat, tail_b);
    assert(tail_a.skip(2) =~= inner_a);
    assert(tail_b.skip(2) =~= inner_b);
    number_splits_off(last_a as nat, end, last_b as nat, end);
}

proof fn group_text_tells_apart(a: Seq<u32>, times_a: int, b: Seq<u32>, times_b: int)
    requires
        a.len() > 0,
        b.len() > 0,
        times_a >= 0,
        times_b >= 0,
        group_text(a, times_a) == group_text(b, times_b),
    ensures
        a == b,
        times_a == times_b,
{
    reveal_strlit("g:(");
    reveal_strlit(")x");
    let tail_a = ")x"@ + decimal(times_a as nat);
    let tail_b = ")x"@ + decimal(times_b as nat);
    let body_a = decimal_list(a) + tail_a;
    let body_b = decimal_list(b) + tail_b;
    assert(group_text(a, times_a) =~= "g:("@ + body_a);
    assert(group_text(b, times_b) =~= "g:("@ + body_b);
    assert(("g:("@ + body_a).skip(3) =~= body_a);
    assert(("g:("@ + body_b).skip(3) =~= body_b);
    decimal_list_is_digits(a);
    decimal_list_is_digits(b);
    split_is_unique(
        decimal_list(a),
        tail_a,
        decimal_list(b),
        tail_b,
        |c: char| is_digit_or_comma(c),
    );
    decimal_list_tells_lists_apart(a, b);
    assert(tail_a.skip(2) =~= decimal(times_a as nat));
    assert(tail_b.skip(2) =~= decimal(times_b as nat));
    decimal_tells_numbers_apart(times_a as nat, times_b as nat);
}

/// Whether the last count of a vector tells how long it is, if it is a ramp: one that
/// has reached the largest count may have stayed there for any number of rows.
pub open spec fn last_tells_length(v: Seq<u32>) -> bool {
    !is_uniform(v) && is_capped_ramp(v, u32::MAX as int) ==> v.last() < u32::MAX
}

/// The compact form keeps everything: two vectors that are written alike are alike.
pub proof fn compact_form_is_lossless(a: Seq<u32>, b: Seq<u32>, allow_clipped: bool, cap: int)
    requires
        a.len() > 0,
        b.len() > 0,
        last_tells_length(a),
        last_tells_length(b),
        compact_form(a, allow_clipped, cap) == compact_form(b, allow_clipped, cap),
    ensures
        a == b,
{
    let shape = shape_of(a, allow_clipped, cap);
    compact_form_names_its_shape(a, allow_clipped, cap);
    compact_form_names_its_shape(b, allow_clipped, cap);
    assert(shape == shape_of(b, allow_clipped, cap));
    match shape {
        Shape::Uniform => {
            uniform_text_tells_apart(
                a[0] as int,
                a.len() as int,
                b[0] as int,
                b.len() as int,
            );
            assert(a =~= b);
        },
        Shape::Ramp => {
            ramp_text_tells_apart(a[0] as int, a.last() as int, b[0] as int, b.last() as int);
            assert(a.last() == min_int(a[0] + (a.len() - 1), u32::MAX as int));
            assert(b.last() == min_int(b[0] + (b.len() - 1), u32::MAX as int));
            assert(a =~= b);
        },
        Shape::Clipped => {
            clipped_text_tells_apart(
                a[0] as int,
                unclipped_last(a),
                b[0] as int,
                unclipped_last(b),
                cap,
            );
            assert(a =~= b);
        },
        Shape::Group => {
            groups_tell_vectors_apart(a, b);
        },
    }
}

proof fn groups_tell_vectors_apart(a: Seq<u32>, b: Seq<u32>)
    requires
        a.len() > 0,
        b.len() > 0,
        group_text(a.take(shortest_period(a)), a.len() as int / shortest_period(a)) == group_text(
            b.take(shortest_period(b)),
            b.len() as int / shortest_period(b),
        ),
    ensures
        a == b,
{
    let p = shortest_period(a);
    let q = shortest_period(b);
    shortest_period_exists(a);
    shortest_period_exists(b);
    let times_a = a.len() as int / p;
    let times_b = b.len() as int / q;
    let n = a.len() as int;
    let m = b.len() as int;
    assert(times_a >= 0 && n == p * times_a) by (nonlinear_arith)
        requires
            times_a == n / p,
            n % p == 0,
            n > 0,
            p > 0,
    ;
    assert(times_b >= 0 && m == q * times_b) by (nonlinear_arith)
        requires
            times_b == m / q,
            m % q == 0,
            m > 0,
            q > 0,
    ;
    group_text_tells_apart(a.take(p), times_a, b.take(q), times_b);
    assert(a.take(p).len() == b.take(q).len());
    assert(n == m);
    assert forall|i: int| 0 <= i < n implies a[i] == b[i] by {
        assert(0 <= i % p < p) by (nonlinear_arith)
            requires
                p > 0,
        ;
        assert(a[i] == a[i % p]);
        assert(b[i] == b[i % p]);
        assert(a.take(p)[i % p] == b.take(q)[i % p]);
    }
    assert(a =~= b);
}

} // verus!
