//! What a build would still have to profile.

use crate::bridge::error::BuildError;
use crate::bridge::payload::KernelKind;
use crate::text::{decimal, push_decimal, text_before};
use crate::text_map::{entries_map_at, has_key, key_at, TextMap};
use vstd::prelude::*;

verus! {

/// How many of a backend's shapes are profiled and how many are missing.
#[derive(Clone, Debug, PartialEq, Eq)]
pub struct BackendJitPlan {
    pub backend: String,
    pub cached: usize,
    pub missing: usize,
}

/// How many shapes of a part of a model are profiled and how many are missing, per
/// backend and part by part.
#[derive(Debug, PartialEq, Eq)]
pub struct JitPlan {
    pub name: String,
    pub total_specs: usize,
    pub cached: usize,
    pub missing: usize,
    pub per_backend: Vec<BackendJitPlan>,
    pub breakdown: Vec<JitPlan>,
}

/// The profiled shapes of all parts.
pub open spec fn cached_in(parts: Seq<JitPlan>, count: int) -> nat
    decreases count,
{
    if count <= 0 {
        0
    } else {
        cached_in(parts, count - 1) + parts[count - 1].cached as nat
    }
}

/// The missing shapes of all parts.
pub open spec fn missing_in(parts: Seq<JitPlan>, count: int) -> nat
    decreases count,
{
    if count <= 0 {
        0
    } else {
        missing_in(parts, count - 1) + parts[count - 1].missing as nat
    }
}

/// The backend counts of all parts, one after the other.
pub open spec fn backend_plans(parts: Seq<JitPlan>, count: int) -> Seq<BackendJitPlan>
    decreases count,
{
    if count <= 0 {
        seq![]
    } else {
        backend_plans(parts, count - 1) + parts[count - 1].per_backend@
    }
}

/// The profiled shapes of one backend.
pub open spec fn cached_of(plans: Seq<BackendJitPlan>, backend: Seq<char>) -> nat
    decreases plans.len(),
{
    if plans.len() == 0 {
        0
    } else {
        cached_of(plans.drop_last(), backend) + if plans.last().backend@ == backend {
            plans.last().cached as nat
        } else {
            0
        }
    }
}

/// The missing shapes of one backend.
pub open spec fn missing_of(plans: Seq<BackendJitPlan>, backend: Seq<char>) -> nat
    decreases plans.len(),
{
    if plans.len() == 0 {
        0
    } else {
        missing_of(plans.drop_last(), backend) + if plans.last().backend@ == backend {
            plans.last().missing as nat
        } else {
            0
        }
    }
}

/// The profiled shapes of all backends.
pub open spec fn cached_of_all(plans: Seq<BackendJitPlan>) -> nat
    decreases plans.len(),
{
    if plans.len() == 0 {
        0
    } else {
        cached_of_all(plans.drop_last()) + plans.last().cached as nat
    }
}

/// The missing shapes of all backends.
pub open spec fn missing_of_all(plans: Seq<BackendJitPlan>) -> nat
    decreases plans.len(),
{
    if plans.len() == 0 {
        0
    } else {
        missing_of_all(plans.drop_last()) + plans.last().missing as nat
    }
}

/// Whether a backend is among the counts.
pub open spec fn mentions(plans: Seq<BackendJitPlan>, backend: Seq<char>) -> bool {
    exists|i: int| 0 <= i < plans.len() && (#[trigger] plans[i]).backend@ == backend
}

/// Whether `rolled` sums up `plans` by backend: each backend once, in the order of their
/// names.
pub open spec fn rolls_up(rolled: Seq<BackendJitPlan>, plans: Seq<BackendJitPlan>) -> bool {
    &&& forall|i: int, j: int|
        0 <= i < j < rolled.len() ==> text_before(
            (#[trigger] rolled[i]).backend@,
            (#[trigger] rolled[j]).backend@,
        )
    &&& forall|i: int|
        0 <= i < rolled.len() ==> mentions(plans, (#[trigger] rolled[i]).backend@)
            && rolled[i].cached == cached_of(plans, rolled[i].backend@) && rolled[i].missing
            == missing_of(plans, rolled[i].backend@)
    &&& forall|backend: Seq<char>| #[trigger]
        mentions(plans, backend) ==> mentions(rolled, backend)
}

/// One backend has no more shapes than all.
proof fn backend_within_all(plans: Seq<BackendJitPlan>, backend: Seq<char>)
    ensures
        cached_of(plans, backend) <= cached_of_all(plans),
        missing_of(plans, backend) <= missing_of_all(plans),
    decreases plans.len(),
{
    if plans.len() > 0 {
        backend_within_all(plans.drop_last(), backend);
    }
}

/// The first counts have no more shapes than all.
proof fn prefix_within_all(plans: Seq<BackendJitPlan>, n: int)
    requires
        0 <= n <= plans.len(),
    ensures
        cached_of_all(plans.take(n)) <= cached_of_all(plans),
        missing_of_all(plans.take(n)) <= missing_of_all(plans),
    decreases plans.len() - n,
{
    if n == plans.len() {
        assert(plans.take(n) =~= plans);
    } else {
        prefix_within_all(plans, n + 1);
        assert(plans.take(n + 1).drop_last() =~= plans.take(n));
    }
}

/// The counts rolled up so far.
spec fn rolled_map(totals: Map<Seq<char>, (usize, usize)>, plans: Seq<BackendJitPlan>) -> bool {
    &&& forall|backend: Seq<char>| #[trigger]
        totals.contains_key(backend) == mentions(plans, backend)
    &&& forall|backend: Seq<char>| #[trigger]
        totals.contains_key(backend) ==> totals[backend].0 == cached_of(plans, backend)
            && totals[backend].1 == missing_of(plans, backend)
}

proof fn unmentioned(plans: Seq<BackendJitPlan>, backend: Seq<char>)
    requires
        !mentions(plans, backend),
    ensures
        cached_of(plans, backend) == 0,
        missing_of(plans, backend) == 0,
    decreases plans.len(),
{
    if plans.len() > 0 {
        let front = plans.drop_last();
        assert(plans[plans.len() - 1].backend@ != backend);
        if mentions(front, backend) {
            let i = choose|i: int| 0 <= i < front.len() && (#[trigger] front[i]).backend@ == backend;
            assert(plans[i].backend@ == backend);
        }
        unmentioned(front, backend);
    }
}

proof fn one_more(
    before: Map<Seq<char>, (usize, usize)>,
    after: Map<Seq<char>, (usize, usize)>,
    plans: Seq<BackendJitPlan>,
    plan: BackendJitPlan,
)
    requires
        rolled_map(before, plans),
        after == before.insert(
            plan.backend@,
            (
                cached_of(plans.push(plan), plan.backend@) as usize,
                missing_of(plans.push(plan), plan.backend@) as usize,
            ),
        ),
        cached_of(plans.push(plan), plan.backend@) <= usize::MAX,
        missing_of(plans.push(plan), plan.backend@) <= usize::MAX,
    ensures
        rolled_map(after, plans.push(plan)),
{
    let more = plans.push(plan);
    assert(more.drop_last() =~= plans);
    assert forall|backend: Seq<char>| #[trigger]
        after.contains_key(backend) == mentions(more, backend) by {
        if mentions(plans, backend) {
            let i = choose|i: int| 0 <= i < plans.len() && (#[trigger] plans[i]).backend@ == backend;
            assert(more[i].backend@ == backend);
        }
        if mentions(more, backend) {
            let i = choose|i: int| 0 <= i < more.len() && (#[trigger] more[i]).backend@ == backend;
            if i < plans.len() {
                assert(plans[i].backend@ == backend);
            }
        }
        if backend == plan.backend@ {
            assert(more[plans.len() as int].backend@ == backend);
        }
        assert(before.contains_key(backend) == mentions(plans, backend));
    }
    assert forall|backend: Seq<char>| #[trigger] after.contains_key(backend) implies after[backend].0
        == cached_of(more, backend) && after[backend].1 == missing_of(more, backend) by {
        if backend != plan.backend@ {
            assert(before.contains_key(backend));
        }
    }
}

/// Add one backend's counts to the totals.
fn add_plan(
    totals: &mut TextMap<(usize, usize)>,
    plan: &BackendJitPlan,
    Ghost(plans): Ghost<Seq<BackendJitPlan>>,
)
    requires
        old(totals).wf(),
        rolled_map(old(totals)@, plans),
        cached_of_all(plans.push(*plan)) <= usize::MAX,
        missing_of_all(plans.push(*plan)) <= usize::MAX,
    ensures
        final(totals).wf(),
        rolled_map(final(totals)@, plans.push(*plan)),
{
    let ghost before = totals@;
    let ghost more = plans.push(*plan);
    proof {
        assert(more.drop_last() =~= plans);
        backend_within_all(more, plan.backend@);
        assert(before.contains_key(plan.backend@) == mentions(plans, plan.backend@));
        if !mentions(plans, plan.backend@) {
            unmentioned(plans, plan.backend@);
        }
    }
    let (cached, missing): (usize, usize) = match totals.get(plan.backend.as_str()) {
        Some(sums) => (sums.0 + plan.cached, sums.1 + plan.missing),
        None => (plan.cached, plan.missing),
    };
    totals.insert(plan.backend.as_str(), (cached, missing));
    proof {
        one_more(before, totals@, plans, *plan);
    }
}

/// The counts of all parts summed up by backend, in the order of the backends' names.
pub fn aggregate_backend_plans(parts: &Vec<JitPlan>) -> (r: Vec<BackendJitPlan>)
    requires
        cached_of_all(backend_plans(parts@, parts@.len() as int)) <= usize::MAX,
        missing_of_all(backend_plans(parts@, parts@.len() as int)) <= usize::MAX,
    ensures
        rolls_up(r@, backend_plans(parts@, parts@.len() as int)),
{
    let ghost all = backend_plans(parts@, parts@.len() as int);
    let mut totals: TextMap<(usize, usize)> = TextMap::new();
    let mut i: usize = 0;
    while i < parts.len()
        invariant
            i <= parts@.len(),
            all == backend_plans(parts@, parts@.len() as int),
            cached_of_all(all) <= usize::MAX,
            missing_of_all(all) <= usize::MAX,
            totals.wf(),
            rolled_map(totals@, backend_plans(parts@, i as int)),
        decreases parts@.len() - i,
    {
        let plans: &Vec<BackendJitPlan> = &parts[i].per_backend;
        let ghost base = backend_plans(parts@, i as int);
        let mut k: usize = 0;
        proof {
            assert(base + plans@.take(0) =~= base);
            plans_are_prefix(parts@, i + 1);
        }
        while k < plans.len()
            invariant
                k <= plans@.len(),
                i < parts@.len(),
                plans@ == parts@[i as int].per_backend@,
                base == backend_plans(parts@, i as int),
                all == backend_plans(parts@, parts@.len() as int),
                cached_of_all(all) <= usize::MAX,
                missing_of_all(all) <= usize::MAX,
                (base + plans@).len() <= all.len(),
                all.take((base + plans@).len() as int) == base + plans@,
                totals.wf(),
                rolled_map(totals@, base + plans@.take(k as int)),
            decreases plans@.len() - k,
        {
            proof {
                let now = base + plans@.take(k as int);
                let next = base + plans@.take(k + 1);
                assert(next =~= now.push(plans@[k as int]));
                assert(next =~= all.take(next.len() as int)) by {
                    assert forall|m: int| 0 <= m < next.len() implies next[m] == #[trigger] all.take(
                        next.len() as int,
                    )[m] by {
                        assert((base + plans@)[m] == all.take((base + plans@).len() as int)[m]);
                    }
                }
                prefix_within_all(all, next.len() as int);
            }
            add_plan(&mut totals, &plans[k], Ghost(base + plans@.take(k as int)));
            proof {
                assert(base + plans@.take(k + 1) =~= (base + plans@.take(k as int)).push(
                    plans@[k as int],
                ));
            }
            k += 1;
        }
        assert(plans@.take(k as int) =~= plans@);
        i += 1;
    }
    let entries: &Vec<(String, (usize, usize))> = totals.entries();
    let mut out: Vec<BackendJitPlan> = Vec::new();
    let mut e: usize = 0;
    while e < entries.len()
        invariant
            e <= entries@.len(),
            out@.len() == e,
            forall|j: int|
                0 <= j < e ==> (#[trigger] out@[j]).backend == entries@[j].0 && out@[j].cached
                    == entries@[j].1.0 && out@[j].missing == entries@[j].1.1,
        decreases entries@.len() - e,
    {
        out.push(
            BackendJitPlan {
                backend: entries[e].0.clone(),
                cached: entries[e].1.0,
                missing: entries[e].1.1,
            },
        );
        e += 1;
    }
    proof {
        assert forall|a: int, b: int| 0 <= a < b < out@.len() implies text_before(
            (#[trigger] out@[a]).backend@,
            (#[trigger] out@[b]).backend@,
        ) by {
            assert(text_before(entries@[a].0@, entries@[b].0@));
        }
        assert forall|a: int| 0 <= a < out@.len() implies mentions(
            all,
            (#[trigger] out@[a]).backend@,
        ) && out@[a].cached == cached_of(all, out@[a].backend@) && out@[a].missing == missing_of(
            all,
            out@[a].backend@,
        ) by {
            entries_map_at(entries@, a);
            assert(totals@.contains_key(out@[a].backend@));
        }
        assert forall|backend: Seq<char>| #[trigger] mentions(all, backend) implies mentions(
            out@,
            backend,
        ) by {
            assert(totals@.contains_key(backend));
            assert(has_key(entries@, backend));
            let a = choose|a: int| key_at(entries@, backend, a);
            assert(out@[a].backend@ == backend);
        }
    }
    out
}

/// The counts of the first parts are the first of all counts.
proof fn plans_are_prefix(parts: Seq<JitPlan>, n: int)
    requires
        0 <= n <= parts.len(),
    ensures
        ({
            let all = backend_plans(parts, parts.len() as int);
            let some = backend_plans(parts, n);
            some.len() <= all.len() && all.take(some.len() as int) == some
        }),
    decreases parts.len() - n,
{
    let all = backend_plans(parts, parts.len() as int);
    let some = backend_plans(parts, n);
    if n == parts.len() {
        assert(all.take(some.len() as int) =~= some);
    } else {
        plans_are_prefix(parts, n + 1);
        let next = backend_plans(parts, n + 1);
        assert(all.take(some.len() as int) =~= some) by {
            assert forall|m: int| 0 <= m < some.len() implies all[m] == some[m] by {
                assert(all.take(next.len() as int)[m] == next[m]);
            }
        }
    }
}

impl JitPlan {
    /// The plan of one kernel on one backend.
    pub fn leaf(name: String, backend: &'static str, cached: usize, missing: usize) -> (r: Self)
        requires
            cached + missing <= usize::MAX,
        ensures
            r.name == name,
            r.total_specs == cached + missing,
            r.cached == cached,
            r.missing == missing,
            r.per_backend@.len() == 1,
            r.per_backend@[0].backend@ == backend@,
            r.per_backend@[0].cached == cached,
            r.per_backend@[0].missing == missing,
            r.breakdown@.len() == 0,
    {
        JitPlan {
            name,
            total_specs: cached + missing,
            cached,
            missing,
            per_backend: vec![BackendJitPlan { backend: backend.to_owned(), cached, missing }],
            breakdown: Vec::new(),
        }
    }

    /// The plan of one kernel on one backend, of which a profiler counted `missing` of
    /// `total_specs` shapes missing; more missing shapes than there are is an error.
    pub fn from_missing_count(
        kernel_kind: KernelKind,
        name: &str,
        backend: &'static str,
        total_specs: usize,
        missing: usize,
    ) -> (r: Result<Self, BuildError>)
        ensures
            match r {
                Ok(plan) => {
                    &&& missing <= total_specs
                    &&& plan.name@ == name@ + "."@ + backend@
                    &&& plan.total_specs == total_specs
                    &&& plan.cached == total_specs - missing
                    &&& plan.missing == missing
                    &&& plan.per_backend@.len() == 1
                    &&& plan.per_backend@[0].backend@ == backend@
                    &&& plan.per_backend@[0].cached == plan.cached
                    &&& plan.per_backend@[0].missing == missing
                    &&& plan.breakdown@.len() == 0
                },
                Err(error) => {
                    &&& missing > total_specs
                    &&& error matches BuildError::FitFailed { kind, reason } && kind == kernel_kind
                        && reason@ == "count_missing returned "@ + decimal(missing as nat)
                        + " missing rows for "@ + decimal(total_specs as nat) + " specs"@
                },
            },
    {
        if missing > total_specs {
            let mut reason = String::new();
            reason.append("count_missing returned ");
            push_decimal(&mut reason, missing as u64);
            reason.append(" missing rows for ");
            push_decimal(&mut reason, total_specs as u64);
            reason.append(" specs");
            assert(reason@ =~= "count_missing returned "@ + decimal(missing as nat)
                + " missing rows for "@ + decimal(total_specs as nat) + " specs"@);
            return Err(BuildError::FitFailed { kind: kernel_kind, reason });
        }
        let mut full = name.to_owned();
        full.append(".");
        full.append(backend);
        assert(full@ =~= name@ + "."@ + backend@);
        Ok(JitPlan::leaf(full, backend, total_specs - missing, missing))
    }

    /// The plan of several parts together.
    pub fn sum(name: String, parts: Vec<JitPlan>) -> (r: Self)
        requires
            cached_in(parts@, parts@.len() as int) + missing_in(parts@, parts@.len() as int)
                <= usize::MAX,
            cached_of_all(backend_plans(parts@, parts@.len() as int)) <= usize::MAX,
            missing_of_all(backend_plans(parts@, parts@.len() as int)) <= usize::MAX,
        ensures
            r.name == name,
            r.cached == cached_in(parts@, parts@.len() as int),
            r.missing == missing_in(parts@, parts@.len() as int),
            r.total_specs == r.cached + r.missing,
            rolls_up(r.per_backend@, backend_plans(parts@, parts@.len() as int)),
            r.breakdown == parts,
    {
        let mut cached: usize = 0;
        let mut missing: usize = 0;
        let mut i: usize = 0;
        while i < parts.len()
            invariant
                i <= parts@.len(),
                cached == cached_in(parts@, i as int),
                missing == missing_in(parts@, i as int),
                cached_in(parts@, parts@.len() as int) + missing_in(parts@, parts@.len() as int)
                    <= usize::MAX,
            decreases parts@.len() - i,
        {
            proof {
                parts_prefix(parts@, i + 1);
            }
            cached = cached + parts[i].cached;
            missing = missing + parts[i].missing;
            i += 1;
        }
        let per_backend: Vec<BackendJitPlan> = aggregate_backend_plans(&parts);
        JitPlan {
            name,
            total_specs: cached + missing,
            cached,
            missing,
            per_backend,
            breakdown: parts,
        }
    }

    /// Whether the counts per backend add up to the counts of the plan.
    pub open spec fn adds_up(&self) -> bool {
        &&& self.total_specs == self.cached + self.missing
        &&& cached_of_all(self.per_backend@) == self.cached
        &&& missing_of_all(self.per_backend@) == self.missing
    }
}

proof fn parts_prefix(parts: Seq<JitPlan>, n: int)
    requires
        0 <= n <= parts.len(),
    ensures
        cached_in(parts, n) <= cached_in(parts, parts.len() as int),
        missing_in(parts, n) <= missing_in(parts, parts.len() as int),
    decreases parts.len() - n,
{
    if n < parts.len() {
        parts_prefix(parts, n + 1);
    }
}

proof fn all_of_joined(a: Seq<BackendJitPlan>, b: Seq<BackendJitPlan>)
    ensures
        cached_of_all(a + b) == cached_of_all(a) + cached_of_all(b),
        missing_of_all(a + b) == missing_of_all(a) + missing_of_all(b),
    decreases b.len(),
{
    if b.len() == 0 {
        assert(a + b =~= a);
    } else {
        all_of_joined(a, b.drop_last());
        assert((a + b).drop_last() =~= a + b.drop_last());
    }
}

/// A plan of one kernel adds up.
pub proof fn leaf_adds_up(plan: JitPlan)
    requires
        plan.total_specs == plan.cached + plan.missing,
        plan.per_backend@.len() == 1,
        plan.per_backend@[0].cached == plan.cached,
        plan.per_backend@[0].missing == plan.missing,
    ensures
        plan.adds_up(),
{
    assert(plan.per_backend@.drop_last() =~= Seq::<BackendJitPlan>::empty());
    reveal_with_fuel(cached_of_all, 2);
    reveal_with_fuel(missing_of_all, 2);
}

/// The counts of all parts' backends are the counts of the parts, where each part adds
/// up.
proof fn parts_add_up(parts: Seq<JitPlan>, count: int)
    requires
        0 <= count <= parts.len(),
        forall|i: int| 0 <= i < parts.len() ==> (#[trigger] parts[i]).adds_up(),
    ensures
        cached_of_all(backend_plans(parts, count)) == cached_in(parts, count),
        missing_of_all(backend_plans(parts, count)) == missing_in(parts, count),
    decreases count,
{
    if count > 0 {
        parts_add_up(parts, count - 1);
        assert(parts[count - 1].adds_up());
        all_of_joined(backend_plans(parts, count - 1), parts[count - 1].per_backend@);
    }
}

/// Rolling counts up by backend loses none and adds none.
proof fn roll_up_keeps_counts(rolled: Seq<BackendJitPlan>, plans: Seq<BackendJitPlan>)
    requires
        rolls_up(rolled, plans),
    ensures
        cached_of_all(rolled) == cached_of_all(plans),
        missing_of_all(rolled) == missing_of_all(plans),
{
    let names = rolled.map_values(|plan: BackendJitPlan| plan.backend@);
    assert forall|i: int, j: int| 0 <= i < j < names.len() implies names[i] != names[j] by {
        assert(text_before(rolled[i].backend@, rolled[j].backend@));
        crate::text::text_before_irreflexive(rolled[i].backend@);
    }
    assert forall|i: int| 0 <= i < plans.len() implies names.contains(
        (#[trigger] plans[i]).backend@,
    ) by {
        assert(mentions(plans, plans[i].backend@));
        assert(mentions(rolled, plans[i].backend@));
        let k = choose|k: int|
            0 <= k < rolled.len() && (#[trigger] rolled[k]).backend@ == plans[i].backend@;
        assert(names[k] == plans[i].backend@);
    }
    names_sum(names, plans, names.len() as int);
    rolled_sum(rolled, plans, rolled.len() as int);
    assert(rolled.take(rolled.len() as int) =~= rolled);
}

/// The sum over the first `count` names of what each counts in `plans`.
spec fn named_sum(names: Seq<Seq<char>>, plans: Seq<BackendJitPlan>, count: int) -> (nat, nat)
    decreases count,
{
    if count <= 0 {
        (0, 0)
    } else {
        let rest = named_sum(names, plans, count - 1);
        (
            rest.0 + cached_of(plans, names[count - 1]),
            rest.1 + missing_of(plans, names[count - 1]),
        )
    }
}

proof fn rolled_sum(rolled: Seq<BackendJitPlan>, plans: Seq<BackendJitPlan>, count: int)
    requires
        rolls_up(rolled, plans),
        0 <= count <= rolled.len(),
    ensures
        ({
            let names = rolled.map_values(|plan: BackendJitPlan| plan.backend@);
            named_sum(names, plans, count) == (
                cached_of_all(rolled.take(count)),
                missing_of_all(rolled.take(count)),
            )
        }),
    decreases count,
{
    if count > 0 {
        rolled_sum(rolled, plans, count - 1);
        assert(rolled.take(count).drop_last() =~= rolled.take(count - 1));
        assert(rolled[count - 1].cached == cached_of(plans, rolled[count - 1].backend@));
    }
}

/// Over distinct names that cover all counts, the sums add up to all counts.
proof fn names_sum(names: Seq<Seq<char>>, plans: Seq<BackendJitPlan>, count: int)
    requires
        count == names.len(),
        forall|i: int, j: int| 0 <= i < j < names.len() ==> names[i] != names[j],
        forall|i: int| 0 <= i < plans.len() ==> names.contains((#[trigger] plans[i]).backend@),
    ensures
        named_sum(names, plans, count) == (cached_of_all(plans), missing_of_all(plans)),
    decreases plans.len(),
{
    if plans.len() == 0 {
        no_plans_sum(names, plans, count);
    } else {
        let front = plans.drop_last();
        let last = plans.last();
        assert forall|i: int| 0 <= i < front.len() implies names.contains(
            (#[trigger] front[i]).backend@,
        ) by {
            assert(plans[i].backend@ == front[i].backend@);
        }
        names_sum(names, front, count);
        assert(names.contains(plans[plans.len() - 1].backend@));
        let k = names.index_of(last.backend@);
        one_name_grows(names, plans, k, count);
    }
}

proof fn no_plans_sum(names: Seq<Seq<char>>, plans: Seq<BackendJitPlan>, count: int)
    requires
        plans.len() == 0,
        0 <= count <= names.len(),
    ensures
        named_sum(names, plans, count) == (0nat, 0nat),
    decreases count,
{
    if count > 0 {
        no_plans_sum(names, plans, count - 1);
    }
}

proof fn one_name_grows(names: Seq<Seq<char>>, plans: Seq<BackendJitPlan>, k: int, count: int)
    requires
        plans.len() > 0,
        0 <= count <= names.len(),
        0 <= k < names.len(),
        names[k] == plans.last().backend@,
        forall|i: int, j: int| 0 <= i < j < names.len() ==> names[i] != names[j],
    ensures
        ({
            let before = named_sum(names, plans.drop_last(), count);
            let now = named_sum(names, plans, count);
            if k < count {
                now.0 == before.0 + plans.last().cached && now.1 == before.1 + plans.last().missing
            } else {
                now == before
            }
        }),
    decreases count,
{
    if count > 0 {
        one_name_grows(names, plans, k, count - 1);
        if count - 1 != k {
            if count - 1 < k {
                assert(names[count - 1] != names[k]);
            } else {
                assert(names[k] != names[count - 1]);
            }
        }
    }
}

/// The plan of several parts adds up where each part does: no shape is lost or counted
/// twice on the way to the total.
pub proof fn sum_adds_up(plan: JitPlan, parts: Seq<JitPlan>)
    requires
        forall|i: int| 0 <= i < parts.len() ==> (#[trigger] parts[i]).adds_up(),
        plan.cached == cached_in(parts, parts.len() as int),
        plan.missing == missing_in(parts, parts.len() as int),
        plan.total_specs == plan.cached + plan.missing,
        rolls_up(plan.per_backend@, backend_plans(parts, parts.len() as int)),
    ensures
        plan.adds_up(),
{
    parts_add_up(parts, parts.len() as int);
    roll_up_keeps_counts(plan.per_backend@, backend_plans(parts, parts.len() as int));
}

} // verus!
