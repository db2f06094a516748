//! Batches of requests, each a number of query rows over a context length.

use crate::expert_demand::total;
use vstd::prelude::*;

verus! {

/// Sum of the query rows of a batch.
pub open spec fn total_queries(pairs: Seq<(u32, u32)>) -> int
    decreases pairs.len(),
{
    if pairs.len() == 0 {
        0
    } else {
        total_queries(pairs.drop_last()) + pairs.last().0
    }
}

/// Sum of the context lengths of a batch.
pub open spec fn total_context(pairs: Seq<(u32, u32)>) -> int
    decreases pairs.len(),
{
    if pairs.len() == 0 {
        0
    } else {
        total_context(pairs.drop_last()) + pairs.last().1
    }
}

/// Twice the causal context read by all query rows of a batch: the rows of a
/// request see `context - queries + 1` to `context` rows.
pub open spec fn doubled_causal_context(pairs: Seq<(u32, u32)>) -> int
    decreases pairs.len(),
{
    if pairs.len() == 0 {
        0
    } else {
        doubled_causal_context(pairs.drop_last()) + request_causal_context(pairs.last())
    }
}

pub open spec fn request_causal_context(pair: (u32, u32)) -> int {
    pair.0 * (2 * pair.1 - pair.0 + 1)
}

/// Whether every request has query rows, and no more of them than context.
pub open spec fn requests_ok(pairs: Seq<(u32, u32)>) -> bool {
    forall|i: int| 0 <= i < pairs.len() ==> 0 < #[trigger] pairs[i].0 <= pairs[i].1
}

/// Whether a batch of at most `max_requests` requests and `max_queries` query rows
/// can be launched.
pub open spec fn batch_ok(pairs: Seq<(u32, u32)>, max_requests: int, max_queries: int) -> bool {
    &&& 0 < pairs.len() <= max_requests
    &&& requests_ok(pairs)
    &&& total_queries(pairs) <= max_queries
}

/// The rows of the first requests are no more than those of all of them.
proof fn queries_of_prefix(pairs: Seq<(u32, u32)>, n: int)
    requires
        0 <= n <= pairs.len(),
    ensures
        0 <= total_queries(pairs.take(n)) <= total_queries(pairs),
    decreases pairs.len() - n,
{
    if n == pairs.len() {
        assert(pairs.take(n) =~= pairs);
        queries_not_negative(pairs);
    } else {
        queries_of_prefix(pairs, n + 1);
        assert(pairs.take(n + 1).drop_last() =~= pairs.take(n));
        queries_not_negative(pairs.take(n));
    }
}

proof fn queries_not_negative(pairs: Seq<(u32, u32)>)
    ensures
        total_queries(pairs) >= 0,
    decreases pairs.len(),
{
    if pairs.len() > 0 {
        queries_not_negative(pairs.drop_last());
    }
}

/// Whether a batch can be launched.
pub fn can_launch(pairs: &Vec<(u32, u32)>) -> (r: bool)
    ensures
        r == batch_ok(pairs@, 64, 8192),
{
    if pairs.len() == 0 || pairs.len() > 64 {
        return false;
    }
    let mut queries: u32 = 0;
    let mut i: usize = 0;
    assert(pairs@.take(0) =~= Seq::<(u32, u32)>::empty());
    while i < pairs.len()
        invariant
            i <= pairs@.len(),
            requests_ok(pairs@.take(i as int)),
            queries == total_queries(pairs@.take(i as int)),
            queries <= 8192,
        decreases pairs@.len() - i,
    {
        let (q, c) = pairs[i];
        proof {
            assert(pairs@.take(i + 1).drop_last() =~= pairs@.take(i as int));
            assert(pairs@.take(i + 1).last() == pairs@[i as int]);
            queries_of_prefix(pairs@, i + 1);
        }
        if q == 0 || q > c {
            assert(!(0 < pairs@[i as int].0 <= pairs@[i as int].1));
            return false;
        }
        if q > 8192 - queries {
            return false;
        }
        queries = queries + q;
        assert forall|j: int| 0 <= j < i + 1 implies 0 < #[trigger] pairs@.take(i + 1)[j].0
            <= pairs@.take(i + 1)[j].1 by {
            if j < i {
                assert(pairs@.take(i as int)[j] == pairs@[j]);
            }
        }
        i += 1;
    }
    assert(pairs@.take(i as int) =~= pairs@);
    true
}

/// Totals of a batch.
#[derive(Clone, Copy, Debug, PartialEq, Eq, Structural)]
pub struct BatchTotals {
    pub queries: u32,
    pub context: u64,
    pub doubled_causal: u64,
}

/// The totals of a batch that can be launched.
pub fn batch_totals(pairs: &Vec<(u32, u32)>) -> (r: BatchTotals)
    requires
        batch_ok(pairs@, 64, 8192),
    ensures
        r.queries == total_queries(pairs@),
        r.context == total_context(pairs@),
        r.doubled_causal == doubled_causal_context(pairs@),
        r.context <= 64 * u32::MAX,
        r.doubled_causal <= 8192 * (2 * u32::MAX),
{
    let mut queries: u32 = 0;
    let mut context: u64 = 0;
    let mut doubled_causal: u64 = 0;
    let mut i: usize = 0;
    assert(pairs@.take(0) =~= Seq::<(u32, u32)>::empty());
    while i < pairs.len()
        invariant
            i <= pairs@.len(),
            batch_ok(pairs@, 64, 8192),
            queries == total_queries(pairs@.take(i as int)),
            queries <= 8192,
            context == total_context(pairs@.take(i as int)),
            context <= i * u32::MAX,
            doubled_causal == doubled_causal_context(pairs@.take(i as int)),
            doubled_causal <= queries * (2 * u32::MAX),
        decreases pairs@.len() - i,
    {
        let (q, c) = pairs[i];
        proof {
            assert(pairs@.take(i + 1).drop_last() =~= pairs@.take(i as int));
            assert(pairs@.take(i + 1).last() == pairs@[i as int]);
            queries_of_prefix(pairs@, i + 1);
            assert(0 < pairs@[i as int].0 <= pairs@[i as int].1);
            assert(0 <= q * (2 * c - q + 1) <= q * (2 * u32::MAX)) by (nonlinear_arith)
                requires
                    0 < q <= c,
                    c <= u32::MAX,
            ;
            assert((queries + q) * (2 * u32::MAX) == queries * (2 * u32::MAX) + q * (2 * u32::MAX))
                by (nonlinear_arith);
        }
        queries = queries + q;
        context = context + c as u64;
        let span: u64 = 2 * (c as u64) - q as u64 + 1;
        doubled_causal = doubled_causal + q as u64 * span;
        i += 1;
    }
    assert(pairs@.take(i as int) =~= pairs@);
    BatchTotals { queries, context, doubled_causal }
}

/// The query rows of request `i` when `queries` rows are spread over `requests`
/// requests as evenly as possible, earlier requests taking one more.
pub open spec fn even_share(queries: int, requests: int, i: int) -> int {
    queries / requests + if i < queries % requests {
        1int
    } else {
        0
    }
}

/// `queries` rows spread evenly over `requests` requests of equal context.
pub open spec fn even_batch(queries: int, requests: int, context: int) -> Seq<(u32, u32)> {
    Seq::new(requests as nat, |i: int| (even_share(queries, requests, i) as u32, context as u32))
}

/// The even batch, if every request has enough context for its rows.
pub open spec fn feasible_even_batch(queries: int, requests: int, context: int) -> Option<
    Seq<(u32, u32)>,
> {
    if even_share(queries, requests, 0) <= context {
        Some(even_batch(queries, requests, context))
    } else {
        None
    }
}

/// An even batch holds exactly the rows that were spread, differing by at most one
/// between requests.
pub proof fn even_batch_totals(queries: int, requests: int, context: int)
    requires
        1 <= requests <= queries <= u32::MAX,
        0 <= context <= u32::MAX,
    ensures
        total_queries(even_batch(queries, requests, context)) == queries,
        total_context(even_batch(queries, requests, context)) == requests * context,
        forall|i: int, j: int|
            0 <= i <= j < requests ==> even_share(queries, requests, j) <= #[trigger] even_share(
                queries,
                requests,
                i,
            ) <= #[trigger] even_share(queries, requests, j) + 1,
{
    let batch = even_batch(queries, requests, context);
    even_batch_prefix(queries, requests, context, requests);
    assert(batch.take(requests) =~= batch);
    assert(requests * (queries / requests) + queries % requests == queries) by (nonlinear_arith)
        requires
            requests > 0,
    ;
}

proof fn even_batch_prefix(queries: int, requests: int, context: int, n: int)
    requires
        1 <= requests <= queries <= u32::MAX,
        0 <= context <= u32::MAX,
        0 <= n <= requests,
    ensures
        total_queries(even_batch(queries, requests, context).take(n)) == n * (queries / requests)
            + if n < queries % requests {
            n
        } else {
            queries % requests
        },
        total_context(even_batch(queries, requests, context).take(n)) == n * context,
    decreases n,
{
    let batch = even_batch(queries, requests, context);
    let base = queries / requests;
    assert(0 <= base <= queries && 0 <= queries % requests < requests && (queries % requests > 0
        ==> base < queries)) by (nonlinear_arith)
        requires
            1 <= requests <= queries,
            base == queries / requests,
    ;
    if n > 0 {
        even_batch_prefix(queries, requests, context, n - 1);
        assert(batch.take(n).drop_last() =~= batch.take(n - 1));
        assert(batch.take(n).last() == batch[n - 1]);
        assert((n - 1) * base + base == n * base) by (nonlinear_arith);
        assert((n - 1) * context + context == n * context) by (nonlinear_arith);
    }
}

/// Spread `queries` rows evenly over `requests` requests of `context` rows, if each
/// then has enough context.
pub fn spread_evenly(queries: u32, requests: u32, context: u32) -> (r: Option<Vec<(u32, u32)>>)
    requires
        1 <= requests <= queries,
    ensures
        match r {
            Some(pairs) => feasible_even_batch(queries as int, requests as int, context as int)
                == Some(pairs@),
            None => feasible_even_batch(queries as int, requests as int, context as int) is None,
        },
{
    let base: u32 = queries / requests;
    let remainder: u32 = queries % requests;
    let largest: u32 = if remainder > 0 {
        proof {
            assert(queries / requests < queries) by (nonlinear_arith)
                requires
                    queries % requests > 0,
                    1 <= requests <= queries,
            ;
        }
        base + 1
    } else {
        base
    };
    if largest > context {
        return None;
    }
    let mut pairs: Vec<(u32, u32)> = Vec::new();
    let mut i: u32 = 0;
    while i < requests
        invariant
            i <= requests,
            base == queries / requests,
            remainder == queries % requests,
            remainder > 0 ==> base < queries,
            pairs@.len() == i,
            forall|j: int|
                0 <= j < i ==> pairs@[j] == (
                    even_share(queries as int, requests as int, j) as u32,
                    context,
                ),
        decreases requests - i,
    {
        let share: u32 = if i < remainder {
            base + 1
        } else {
            base
        };
        pairs.push((share, context));
        i += 1;
    }
    assert(pairs@ =~= even_batch(queries as int, requests as int, context as int));
    Some(pairs)
}

/// Sum of a list of row counts.
pub fn row_sum(rows: &Vec<u32>) -> (r: u64)
    requires
        rows@.len() <= u32::MAX,
    ensures
        r == total(rows@),
        r <= rows@.len() * u32::MAX,
{
    let mut sum: u64 = 0;
    let mut i: usize = 0;
    assert(rows@.take(0) =~= Seq::<u32>::empty());
    while i < rows.len()
        invariant
            i <= rows@.len() <= u32::MAX,
            sum == total(rows@.take(i as int)),
            sum <= i * u32::MAX,
        decreases rows@.len() - i,
    {
        proof {
            assert(rows@.take(i + 1).drop_last() =~= rows@.take(i as int));
            assert(rows@.take(i + 1).last() == rows@[i as int]);
            assert((i + 1) * u32::MAX == i * u32::MAX + u32::MAX) by (nonlinear_arith);
            assert(i * u32::MAX <= u32::MAX * u32::MAX) by (nonlinear_arith)
                requires
                    0 <= i <= u32::MAX,
            ;
        }
        sum = sum + rows[i] as u64;
        i += 1;
    }
    assert(rows@.take(i as int) =~= rows@);
    sum
}

/// Sum of the row counts from `first` on.
pub fn row_sum_from(rows: &Vec<u32>, first: usize) -> (r: u64)
    requires
        first <= rows@.len() <= u32::MAX,
    ensures
        r == total(rows@.skip(first as int)),
        r <= (rows@.len() - first) * u32::MAX,
{
    let mut rest: Vec<u32> = Vec::new();
    let mut i: usize = first;
    while i < rows.len()
        invariant
            first <= i <= rows@.len(),
            rest@ == rows@.subrange(first as int, i as int),
        decreases rows@.len() - i,
    {
        rest.push(rows[i]);
        i += 1;
        assert(rest@ =~= rows@.subrange(first as int, i as int));
    }
    assert(rest@ =~= rows@.skip(first as int));
    row_sum(&rest)
}

/// `count` copies of `value`.
pub open spec fn copies(value: int, count: int) -> Seq<u32> {
    Seq::new(count as nat, |i: int| value as u32)
}

/// `count` copies of `value`.
pub fn repeat_value(value: u32, count: u32) -> (r: Vec<u32>)
    ensures
        r@ == copies(value as int, count as int),
{
    let mut out: Vec<u32> = Vec::new();
    let mut i: u32 = 0;
    while i < count
        invariant
            i <= count,
            out@.len() == i,
            forall|j: int| 0 <= j < i ==> out@[j] == value,
        decreases count - i,
    {
        out.push(value);
        i += 1;
    }
    assert(out@ =~= copies(value as int, count as int));
    out
}

/// The sum of equal counts.
pub proof fn total_of_copies(value: int, count: int)
    requires
        0 <= value <= u32::MAX,
        0 <= count,
    ensures
        total(copies(value, count)) == value * count,
    decreases count,
{
    let all = copies(value, count);
    if count == 0 {
        assert(value * 0 == 0) by (nonlinear_arith);
    } else {
        total_of_copies(value, count - 1);
        assert(all.drop_last() =~= copies(value, count - 1));
        assert(value * (count - 1) + value == value * count) by (nonlinear_arith);
    }
}

/// A batch has no fewer rows than requests, and no fewer context rows than rows.
pub proof fn requests_rows_and_context_ascend(pairs: Seq<(u32, u32)>)
    requires
        requests_ok(pairs),
    ensures
        pairs.len() <= total_queries(pairs) <= total_context(pairs),
        total_context(pairs) <= pairs.len() * u32::MAX,
    decreases pairs.len(),
{
    if pairs.len() > 0 {
        let front = pairs.drop_last();
        assert forall|i: int| 0 <= i < front.len() implies 0 < #[trigger] front[i].0
            <= front[i].1 by {
            assert(pairs[i] == front[i]);
        }
        requests_rows_and_context_ascend(front);
        assert(0 < pairs[pairs.len() - 1].0 <= pairs[pairs.len() - 1].1);
    }
}

/// Rows spread over requests fit every request if they fit all of them together.
pub proof fn even_share_fits(queries: int, requests: int, context: int)
    requires
        requests > 0,
        0 <= queries <= requests * context,
    ensures
        even_share(queries, requests, 0) <= context,
{
    let share = queries / requests;
    let rest = queries % requests;
    assert(queries == requests * share + rest && 0 <= rest < requests) by (nonlinear_arith)
        requires
            requests > 0,
            share == queries / requests,
            rest == queries % requests,
    ;
    assert(share + (if 0 < rest {
        1int
    } else {
        0
    }) <= context) by (nonlinear_arith)
        requires
            requests * share + rest <= requests * context,
            0 <= rest < requests,
    ;
}

/// The rows, the context and the causal context of two batches taken together add up.
pub proof fn totals_of_joined(a: Seq<(u32, u32)>, b: Seq<(u32, u32)>)
    ensures
        total_queries(a + b) == total_queries(a) + total_queries(b),
        total_context(a + b) == total_context(a) + total_context(b),
        doubled_causal_context(a + b) == doubled_causal_context(a) + doubled_causal_context(b),
    decreases b.len(),
{
    if b.len() == 0 {
        assert(a + b =~= a);
    } else {
        totals_of_joined(a, b.drop_last());
        assert((a + b).drop_last() =~= a + b.drop_last());
    }
}

/// The context that the first rows of a request see, added up: a request's rows are the
/// last of its context, and each sees all up to itself.
pub open spec fn seen_by(pair: (u32, u32), rows: nat) -> int
    decreases rows,
{
    if rows == 0 {
        0
    } else {
        seen_by(pair, (rows - 1) as nat) + (pair.1 - pair.0 + rows)
    }
}

/// The causal context of a request is what all its rows see, doubled.
pub proof fn causal_context_is_what_rows_see(pair: (u32, u32))
    ensures
        request_causal_context(pair) == 2 * seen_by(pair, pair.0 as nat),
{
    first_rows_see(pair, pair.0 as nat);
    let (q, c) = (pair.0 as int, pair.1 as int);
    assert(q * (2 * (c - q) + q + 1) == q * (2 * c - q + 1)) by (nonlinear_arith);
}

proof fn first_rows_see(pair: (u32, u32), rows: nat)
    ensures
        2 * seen_by(pair, rows) == rows * (2 * (pair.1 - pair.0) + rows + 1),
    decreases rows,
{
    if rows > 0 {
        let before = (rows - 1) as nat;
        first_rows_see(pair, before);
        let (n, m, d) = (rows as int, before as int, pair.1 - pair.0);
        assert(m * (2 * d + m + 1) + 2 * (d + n) == n * (2 * d + n + 1)) by (nonlinear_arith)
            requires
                m == n - 1,
        ;
    } else {
        let d = pair.1 - pair.0;
        assert(0 * (2 * d + 0 + 1) == 0);
    }
}

} // verus!
