//! Text building blocks: equality, ordering and decimal rendering of strings.

use vstd::prelude::*;

verus! {

/// Outcome of comparing two texts in dictionary order.
#[derive(Clone, Copy, Debug, PartialEq, Eq, Structural)]
pub enum TextOrder {
    Before,
    Same,
    After,
}

/// `a` and `b` share their first `k` characters, and at position `k` either `a`
/// ends first or holds the smaller character.
pub open spec fn splits_at(a: Seq<char>, b: Seq<char>, k: int) -> bool {
    &&& 0 <= k <= a.len()
    &&& k < b.len()
    &&& forall|i: int| 0 <= i < k ==> a[i] == b[i]
    &&& k == a.len() || (a[k] as u32) < (b[k] as u32)
}

/// Strict dictionary order on texts, character by character.
pub open spec fn text_before(a: Seq<char>, b: Seq<char>) -> bool {
    exists|k: int| splits_at(a, b, k)
}

/// No text comes before itself.
pub proof fn text_before_irreflexive(a: Seq<char>)
    ensures
        !text_before(a, a),
{
}

/// Dictionary order is transitive.
pub proof fn text_before_transitive(a: Seq<char>, b: Seq<char>, c: Seq<char>)
    requires
        text_before(a, b),
        text_before(b, c),
    ensures
        text_before(a, c),
{
    let k1 = choose|k: int| splits_at(a, b, k);
    let k2 = choose|k: int| splits_at(b, c, k);
    let k = if k1 < k2 { k1 } else { k2 };
    assert(splits_at(a, c, k));
}

/// Two texts never come before each other.
pub proof fn text_before_asymmetric(a: Seq<char>, b: Seq<char>)
    requires
        text_before(a, b),
    ensures
        !text_before(b, a),
        a != b,
{
    if text_before(b, a) {
        text_before_transitive(a, b, a);
    }
}

/// `part` stands somewhere in `text`.
pub open spec fn holds_text(text: Seq<char>, part: Seq<char>) -> bool {
    exists|k: int| stands_at(text, part, k)
}

/// `part` stands in `text` from position `k` on.
pub open spec fn stands_at(text: Seq<char>, part: Seq<char>, k: int) -> bool {
    0 <= k && k + part.len() <= text.len() && text.subrange(k, k + part.len()) == part
}

/// Whether `part` stands somewhere in `text`.
pub fn text_contains(text: &str, part: &str) -> (r: bool)
    ensures
        r == holds_text(text@, part@),
{
    let n: usize = text.unicode_len();
    let m: usize = part.unicode_len();
    let mut k: usize = 0;
    while k <= n && m <= n - k
        invariant
            n == text@.len(),
            m == part@.len(),
            k <= n + 1,
            forall|j: int| 0 <= j < k ==> !stands_at(text@, part@, j),
        decreases n + 1 - k,
    {
        let mut i: usize = 0;
        while i < m && text.get_char(k + i) == part.get_char(i)
            invariant
                n == text@.len(),
                m == part@.len(),
                k + m <= n,
                i <= m,
                forall|j: int| 0 <= j < i ==> text@[k + j] == part@[j],
            decreases m - i,
        {
            i += 1;
        }
        if i == m {
            assert(text@.subrange(k as int, k + m) =~= part@);
            assert(stands_at(text@, part@, k as int));
            return true;
        }
        proof {
            if stands_at(text@, part@, k as int) {
                assert(text@.subrange(k as int, k + m)[i as int] == text@[k + i]);
            }
        }
        if k == n {
            return false;
        }
        k += 1;
    }
    false
}

/// Whether two texts hold the same characters.
pub fn text_eq(a: &str, b: &str) -> (r: bool)
    ensures
        r == (a@ == b@),
{
    a.to_owned() == b.to_owned()
}

/// Dictionary order of two texts.
pub fn text_order(a: &str, b: &str) -> (r: TextOrder)
    ensures
        r == TextOrder::Before <==> text_before(a@, b@),
        r == TextOrder::Same <==> a@ == b@,
        r == TextOrder::After <==> text_before(b@, a@),
{
    let n: usize = a.unicode_len();
    let m: usize = b.unicode_len();
    let mut i: usize = 0;
    while i < n && i < m
        invariant
            n == a@.len(),
            m == b@.len(),
            i <= n,
            i <= m,
            forall|j: int| 0 <= j < i ==> a@[j] == b@[j],
        decreases n - i,
    {
        let x: char = a.get_char(i);
        let y: char = b.get_char(i);
        if x < y {
            proof {
                assert(splits_at(a@, b@, i as int));
                text_before_asymmetric(a@, b@);
            }
            return TextOrder::Before;
        }
        if y < x {
            proof {
                assert(splits_at(b@, a@, i as int));
                text_before_asymmetric(b@, a@);
            }
            return TextOrder::After;
        }
        i += 1;
    }
    if n < m {
        proof {
            assert(splits_at(a@, b@, n as int));
            text_before_asymmetric(a@, b@);
        }
        TextOrder::Before
    } else if m < n {
        proof {
            assert(splits_at(b@, a@, m as int));
            text_before_asymmetric(b@, a@);
        }
        TextOrder::After
    } else {
        proof {
            assert(a@ =~= b@);
            text_before_irreflexive(a@);
        }
        TextOrder::Same
    }
}

/// The character of one decimal digit.
pub open spec fn digit(d: nat) -> char {
    if d == 0 {
        '0'
    } else if d == 1 {
        '1'
    } else if d == 2 {
        '2'
    } else if d == 3 {
        '3'
    } else if d == 4 {
        '4'
    } else if d == 5 {
        '5'
    } else if d == 6 {
        '6'
    } else if d == 7 {
        '7'
    } else if d == 8 {
        '8'
    } else {
        '9'
    }
}

/// Decimal notation of a number, without leading zeros.
pub open spec fn decimal(n: nat) -> Seq<char>
    decreases n,
{
    if n < 10 {
        seq![digit(n)]
    } else {
        decimal(n / 10).push(digit(n % 10))
    }
}

/// Whether a character is a decimal digit.
pub open spec fn is_digit(c: char) -> bool {
    '0' <= c <= '9'
}

/// A decimal notation is made of digits, at least one.
pub proof fn decimal_is_digits(n: nat)
    ensures
        decimal(n).len() > 0,
        forall|i: int| 0 <= i < decimal(n).len() ==> is_digit(#[trigger] decimal(n)[i]),
    decreases n,
{
    if n >= 10 {
        decimal_is_digits(n / 10);
    }
}

proof fn digit_tells_apart(a: nat, b: nat)
    requires
        a < 10,
        b < 10,
        digit(a) == digit(b),
    ensures
        a == b,
{
}

/// Different numbers have different decimal notations.
pub proof fn decimal_tells_numbers_apart(a: nat, b: nat)
    requires
        decimal(a) == decimal(b),
    ensures
        a == b,
    decreases a,
{
    if a >= 10 {
        decimal_is_digits(a / 10);
    }
    if b >= 10 {
        decimal_is_digits(b / 10);
    }
    assert(decimal(a).last() == digit(a % 10));
    assert(decimal(b).last() == digit(b % 10));
    digit_tells_apart(a % 10, b % 10);
    if a >= 10 && b >= 10 {
        assert(decimal(a).drop_last() =~= decimal(a / 10));
        assert(decimal(b).drop_last() =~= decimal(b / 10));
        decimal_tells_numbers_apart(a / 10, b / 10);
    }
}

/// Whether every character of a text is one of `kind`.
pub open spec fn made_of(text: Seq<char>, kind: spec_fn(char) -> bool) -> bool {
    forall|i: int| 0 <= i < text.len() ==> kind(#[trigger] text[i])
}

/// A text splits in one way only into characters of a kind and a rest that starts with
/// none of them.
pub proof fn split_is_unique(
    a: Seq<char>,
    rest_a: Seq<char>,
    b: Seq<char>,
    rest_b: Seq<char>,
    kind: spec_fn(char) -> bool,
)
    requires
        a + rest_a == b + rest_b,
        made_of(a, kind),
        made_of(b, kind),
        rest_a.len() > 0 ==> !kind(rest_a[0]),
        rest_b.len() > 0 ==> !kind(rest_b[0]),
    ensures
        a == b,
        rest_a == rest_b,
{
    let whole = a + rest_a;
    assert(whole.len() == b.len() + rest_b.len());
    if a.len() < b.len() {
        assert(whole[a.len() as int] == rest_a[0]);
        assert((b + rest_b)[a.len() as int] == b[a.len() as int]);
    }
    if b.len() < a.len() {
        assert((b + rest_b)[b.len() as int] == rest_b[0]);
        assert(whole[b.len() as int] == a[b.len() as int]);
    }
    assert(a =~= whole.take(a.len() as int));
    assert(b =~= (b + rest_b).take(b.len() as int));
    assert(rest_a =~= whole.skip(a.len() as int));
    assert(rest_b =~= (b + rest_b).skip(b.len() as int));
}

/// A text splits in one way only into a rest that ends with no character of a kind and
/// characters of that kind.
pub proof fn split_from_end_is_unique(
    rest_a: Seq<char>,
    a: Seq<char>,
    rest_b: Seq<char>,
    b: Seq<char>,
    kind: spec_fn(char) -> bool,
)
    requires
        rest_a + a == rest_b + b,
        made_of(a, kind),
        made_of(b, kind),
        rest_a.len() > 0 ==> !kind(rest_a.last()),
        rest_b.len() > 0 ==> !kind(rest_b.last()),
    ensures
        a == b,
        rest_a == rest_b,
{
    let whole = rest_a + a;
    let other = rest_b + b;
    assert(whole.len() == rest_b.len() + b.len());
    if rest_a.len() < rest_b.len() {
        let at = rest_b.len() - 1;
        assert(other[at] == rest_b.last());
        assert(whole[at] == a[at - rest_a.len()]);
    }
    if rest_b.len() < rest_a.len() {
        let at = rest_a.len() - 1;
        assert(whole[at] == rest_a.last());
        assert(other[at] == b[at - rest_b.len()]);
    }
    assert(rest_a =~= whole.take(rest_a.len() as int));
    assert(rest_b =~= other.take(rest_b.len() as int));
    assert(a =~= whole.skip(rest_a.len() as int));
    assert(b =~= other.skip(rest_b.len() as int));
}

fn digit_text(d: u64) -> (r: &'static str)
    requires
        d < 10,
    ensures
        r@ == seq![digit(d as nat)],
{
    proof {
        reveal_strlit("0");
        reveal_strlit("1");
        reveal_strlit("2");
        reveal_strlit("3");
        reveal_strlit("4");
        reveal_strlit("5");
        reveal_strlit("6");
        reveal_strlit("7");
        reveal_strlit("8");
        reveal_strlit("9");
    }
    if d == 0 {
        "0"
    } else if d == 1 {
        "1"
    } else if d == 2 {
        "2"
    } else if d == 3 {
        "3"
    } else if d == 4 {
        "4"
    } else if d == 5 {
        "5"
    } else if d == 6 {
        "6"
    } else if d == 7 {
        "7"
    } else if d == 8 {
        "8"
    } else {
        "9"
    }
}

/// Append a number in decimal notation.
pub fn push_decimal(out: &mut String, value: u64)
    ensures
        final(out)@ == old(out)@ + decimal(value as nat),
    decreases value,
{
    if value >= 10 {
        push_decimal(out, value / 10);
    }
    out.append(digit_text(value % 10));
    assert(out@ =~= old(out)@ + decimal(value as nat));
}

/// Decimal notation of a number as an owned text.
pub fn decimal_text(value: u64) -> (r: String)
    ensures
        r@ == decimal(value as nat),
{
    let mut out = String::new();
    push_decimal(&mut out, value);
    assert(out@ =~= decimal(value as nat));
    out
}

/// Decimal notations of `values`, separated by commas.
pub open spec fn decimal_list(values: Seq<u32>) -> Seq<char>
    decreases values.len(),
{
    if values.len() == 0 {
        seq![]
    } else if values.len() == 1 {
        decimal(values[0] as nat)
    } else {
        decimal_list(values.drop_last()) + ","@ + decimal(values.last() as nat)
    }
}

/// Whether a character may stand in a list of numbers.
pub open spec fn is_digit_or_comma(c: char) -> bool {
    is_digit(c) || c == ','
}

/// A list of numbers is made of digits and commas.
pub proof fn decimal_list_is_digits(values: Seq<u32>)
    ensures
        made_of(decimal_list(values), |c: char| is_digit_or_comma(c)),
        values.len() > 0 ==> decimal_list(values).len() > 0,
    decreases values.len(),
{
    let kind = |c: char| is_digit_or_comma(c);
    if values.len() == 1 {
        decimal_is_digits(values[0] as nat);
        assert forall|i: int| 0 <= i < decimal_list(values).len() implies kind(
            #[trigger] decimal_list(values)[i],
        ) by {
            assert(is_digit(decimal(values[0] as nat)[i]));
        }
    } else if values.len() > 1 {
        reveal_strlit(",");
        let rest = decimal_list(values.drop_last());
        let last = decimal(values.last() as nat);
        decimal_list_is_digits(values.drop_last());
        decimal_is_digits(values.last() as nat);
        assert forall|i: int| 0 <= i < decimal_list(values).len() implies kind(
            #[trigger] decimal_list(values)[i],
        ) by {
            if i < rest.len() {
                assert(kind(rest[i]));
            } else if i > rest.len() {
                assert(is_digit(last[i - rest.len() - 1]));
            }
        }
    }
}

/// Different lists of numbers are written differently.
pub proof fn decimal_list_tells_lists_apart(a: Seq<u32>, b: Seq<u32>)
    requires
        a.len() > 0,
        b.len() > 0,
        decimal_list(a) == decimal_list(b),
    ensures
        a == b,
    decreases a.len(),
{
    reveal_strlit(",");
    let kind = |c: char| is_digit(c);
    let last_a = decimal(a.last() as nat);
    let last_b = decimal(b.last() as nat);
    let rest_a = if a.len() == 1 {
        Seq::<char>::empty()
    } else {
        decimal_list(a.drop_last()) + ","@
    };
    let rest_b = if b.len() == 1 {
        Seq::<char>::empty()
    } else {
        decimal_list(b.drop_last()) + ","@
    };
    decimal_is_digits(a.last() as nat);
    decimal_is_digits(b.last() as nat);
    assert(made_of(last_a, kind)) by {
        assert forall|i: int| 0 <= i < last_a.len() implies kind(#[trigger] last_a[i]) by {
            assert(is_digit(last_a[i]));
        }
    }
    assert(made_of(last_b, kind)) by {
        assert forall|i: int| 0 <= i < last_b.len() implies kind(#[trigger] last_b[i]) by {
            assert(is_digit(last_b[i]));
        }
    }
    assert(decimal_list(a) =~= rest_a + last_a);
    assert(decimal_list(b) =~= rest_b + last_b);
    split_from_end_is_unique(rest_a, last_a, rest_b, last_b, kind);
    decimal_tells_numbers_apart(a.last() as nat, b.last() as nat);
    if a.len() > 1 && b.len() > 1 {
        assert(decimal_list(a.drop_last()) =~= rest_a.drop_last());
        assert(decimal_list(b.drop_last()) =~= rest_b.drop_last());
        decimal_list_tells_lists_apart(a.drop_last(), b.drop_last());
        assert(a =~= a.drop_last().push(a.last()));
        assert(b =~= b.drop_last().push(b.last()));
    } else {
        assert(a =~= b);
    }
}

/// Append the first `count` numbers of `values` separated by commas.
pub fn push_decimal_list(out: &mut String, values: &[u32], count: usize)
    requires
        count <= values@.len(),
    ensures
        final(out)@ == old(out)@ + decimal_list(values@.take(count as int)),
{
    let mut i: usize = 0;
    assert(out@ =~= old(out)@ + decimal_list(values@.take(0)));
    while i < count
        invariant
            i <= count <= values@.len(),
            out@ == old(out)@ + decimal_list(values@.take(i as int)),
        decreases count - i,
    {
        proof {
            let next = values@.take(i + 1);
            assert(next.drop_last() =~= values@.take(i as int));
            assert(next.last() == values@[i as int]);
        }
        if i > 0 {
            out.append(",");
        }
        push_decimal(out, values[i] as u64);
        i += 1;
        assert(out@ =~= old(out)@ + decimal_list(values@.take(i as int)));
    }
}

} // verus!
