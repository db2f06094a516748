//! The state that a model build carries, and the decisions around a profiler request.

use crate::bridge::error::PerfApiError;
use crate::bridge::payload::{payload_backend, ArgsPayload, DType, KernelKind};
use crate::kernels::config::{copy_names, ConfigField};
use crate::text::{decimal, push_decimal, text_eq};
use crate::text_map::TextMap;
use vstd::prelude::*;

verus! {

/// How many of a kernel's shapes are missing from the profile database, over all of its
/// backends.
#[derive(Clone, Debug, PartialEq, Eq)]
pub struct KernelMissing {
    pub name: String,
    pub kind: KernelKind,
    pub missing: usize,
    pub total: usize,
}

/// What is known of a kernel before anything is profiled: the pool it is built for, its
/// dotted name, its kind, GPU, precisions, configuration and candidate backends.
#[derive(Clone, Debug, PartialEq, Eq)]
pub struct KernelEnum {
    pub pool: String,
    pub name: String,
    pub kind: KernelKind,
    pub gpu: String,
    pub compute_dtype: Option<DType>,
    pub kv_dtype: Option<DType>,
    pub config: Vec<ConfigField>,
    pub backends: Vec<String>,
}

/// The state of a model build. In a dry run every kernel only counts what is missing; in
/// an enumeration every kernel only reports what it is. The candidate backends of a
/// kernel can be overridden by its name, for one pool at a time.
#[derive(Clone, Debug)]
pub struct PerfApiBridge {
    dry_run: Option<Vec<KernelMissing>>,
    backend_overrides: Option<TextMap<Vec<&'static str>>>,
    active_pool: Option<String>,
    enumerate: Option<Vec<KernelEnum>>,
}

/// What was in force before a pool's scope began.
#[derive(Debug)]
pub struct BackendOverrideGuard {
    prev_pool: Option<String>,
    prev_overrides: Option<TextMap<Vec<&'static str>>>,
}

impl BackendOverrideGuard {
    pub closed spec fn pool(&self) -> Option<Seq<char>> {
        match self.prev_pool {
            Some(pool) => Some(pool@),
            None => None,
        }
    }

    pub closed spec fn overrides(&self) -> Option<Map<Seq<char>, Vec<&'static str>>> {
        match self.prev_overrides {
            Some(map) => Some(map@),
            None => None,
        }
    }

    pub closed spec fn wf(&self) -> bool {
        self.prev_overrides matches Some(map) ==> map.wf()
    }
}

/// The texts of a list of names.
pub open spec fn texts(names: Seq<&'static str>) -> Seq<Seq<char>> {
    names.map_values(|name: &'static str| name@)
}

/// The texts of a list of strings.
pub open spec fn strings(names: Seq<String>) -> Seq<Seq<char>> {
    names.map_values(|name: String| name@)
}

fn own_names(names: &Vec<&'static str>) -> (r: Vec<String>)
    ensures
        strings(r@) == texts(names@),
{
    let mut out: Vec<String> = Vec::new();
    let mut i: usize = 0;
    while i < names.len()
        invariant
            i <= names@.len(),
            out@.len() == i,
            forall|j: int| 0 <= j < i ==> (#[trigger] out@[j])@ == names@[j]@,
        decreases names@.len() - i,
    {
        let name: &'static str = names[i];
        out.push(name.to_owned());
        i += 1;
    }
    assert(strings(out@) =~= texts(names@));
    out
}

impl PerfApiBridge {
    /// The dry-run report so far, in a dry run.
    pub closed spec fn missing_report(&self) -> Option<Seq<KernelMissing>> {
        match self.dry_run {
            Some(report) => Some(report@),
            None => None,
        }
    }

    /// The enumeration so far, in an enumeration.
    pub closed spec fn enum_report(&self) -> Option<Seq<KernelEnum>> {
        match self.enumerate {
            Some(report) => Some(report@),
            None => None,
        }
    }

    /// The candidate backends in force, by kernel name.
    pub closed spec fn overrides(&self) -> Option<Map<Seq<char>, Vec<&'static str>>> {
        match self.backend_overrides {
            Some(map) => Some(map@),
            None => None,
        }
    }

    /// The pool that is being built.
    pub closed spec fn pool(&self) -> Option<Seq<char>> {
        match self.active_pool {
            Some(pool) => Some(pool@),
            None => None,
        }
    }

    pub closed spec fn wf(&self) -> bool {
        self.backend_overrides matches Some(map) ==> map.wf()
    }

    /// A state in which kernels are built, without overrides.
    pub fn new() -> (r: Self)
        ensures
            r.wf(),
            r.missing_report() is None,
            r.enum_report() is None,
            r.overrides() is None,
            r.pool() is None,
    {
        PerfApiBridge {
            dry_run: None,
            backend_overrides: None,
            active_pool: None,
            enumerate: None,
        }
    }

    /// Begin a dry run with an empty report.
    pub fn enable_dry_run(&mut self)
        requires
            old(self).wf(),
        ensures
            final(self).wf(),
            final(self).missing_report() == Some(Seq::<KernelMissing>::empty()),
            final(self).enum_report() == old(self).enum_report(),
            final(self).overrides() == old(self).overrides(),
            final(self).pool() == old(self).pool(),
    {
        let report: Vec<KernelMissing> = Vec::new();
        assert(report@ =~= Seq::<KernelMissing>::empty());
        self.dry_run = Some(report);
    }

    pub fn is_dry_run(&self) -> (r: bool)
        ensures
            r == (self.missing_report() is Some),
    {
        self.dry_run.is_some()
    }

    /// Report a kernel's counts; without effect outside a dry run.
    pub fn record_missing(&mut self, name: String, kind: KernelKind, missing: usize, total: usize)
        requires
            old(self).wf(),
        ensures
            final(self).wf(),
            final(self).missing_report() == (match old(self).missing_report() {
                Some(report) => Some(report.push((KernelMissing { name, kind, missing, total }))),
                None => None,
            }),
            final(self).enum_report() == old(self).enum_report(),
            final(self).overrides() == old(self).overrides(),
            final(self).pool() == old(self).pool(),
    {
        let current: Option<Vec<KernelMissing>> = self.dry_run.take();
        if let Some(mut report) = current {
            report.push(KernelMissing { name, kind, missing, total });
            self.dry_run = Some(report);
        }
    }

    /// Take the dry-run report and go on with an empty one; empty outside a dry run.
    pub fn take_dry_run_report(&mut self) -> (r: Vec<KernelMissing>)
        requires
            old(self).wf(),
        ensures
            final(self).wf(),
            match old(self).missing_report() {
                Some(report) => r@ == report && final(self).missing_report() == Some(
                    Seq::<KernelMissing>::empty(),
                ),
                None => r@.len() == 0 && final(self).missing_report() is None,
            },
            final(self).enum_report() == old(self).enum_report(),
            final(self).overrides() == old(self).overrides(),
            final(self).pool() == old(self).pool(),
    {
        let current: Option<Vec<KernelMissing>> = self.dry_run.take();
        match current {
            Some(report) => {
                let fresh: Vec<KernelMissing> = Vec::new();
                assert(fresh@ =~= Seq::<KernelMissing>::empty());
                self.dry_run = Some(fresh);
                report
            },
            None => Vec::new(),
        }
    }

    /// Begin the scope of a pool: its overrides come into force and its name tags what is
    /// enumerated. What was in force before is handed back for the end of the scope.
    pub fn with_backend_overrides(
        &mut self,
        pool: &str,
        submap: Option<TextMap<Vec<&'static str>>>,
    ) -> (r: BackendOverrideGuard)
        requires
            old(self).wf(),
            submap matches Some(map) ==> map.wf(),
        ensures
            final(self).wf(),
            r.wf(),
            final(self).pool() == Some(pool@),
            match submap {
                Some(map) => final(self).overrides() == Some(map@),
                None => final(self).overrides() is None,
            },
            r.pool() == old(self).pool(),
            r.overrides() == old(self).overrides(),
            final(self).missing_report() == old(self).missing_report(),
            final(self).enum_report() == old(self).enum_report(),
    {
        let prev_overrides: Option<TextMap<Vec<&'static str>>> = self.backend_overrides.take();
        let prev_pool: Option<String> = self.active_pool.take();
        self.backend_overrides = submap;
        self.active_pool = Some(pool.to_owned());
        BackendOverrideGuard { prev_pool, prev_overrides }
    }

    /// End the scope of a pool: what was in force before it is in force again.
    pub fn restore(&mut self, guard: BackendOverrideGuard)
        requires
            old(self).wf(),
            guard.wf(),
        ensures
            final(self).wf(),
            final(self).pool() == guard.pool(),
            final(self).overrides() == guard.overrides(),
            final(self).missing_report() == old(self).missing_report(),
            final(self).enum_report() == old(self).enum_report(),
    {
        self.backend_overrides = guard.prev_overrides;
        self.active_pool = guard.prev_pool;
    }

    /// The candidate backends that are in force for a kernel's name, if any.
    pub fn backend_override_for(&self, name: &str) -> (r: Option<Vec<&'static str>>)
        requires
            self.wf(),
        ensures
            match r {
                Some(backends) => self.overrides() is Some && self.overrides()->0.contains_key(
                    name@,
                ) && backends@ == self.overrides()->0[name@]@,
                None => self.overrides() is None || !self.overrides()->0.contains_key(name@),
            },
    {
        match &self.backend_overrides {
            Some(map) => match map.get(name) {
                Some(backends) => Some(copy_names(backends)),
                None => None,
            },
            None => None,
        }
    }

    /// Begin an enumeration with an empty report.
    pub fn enable_enumerate(&mut self)
        requires
            old(self).wf(),
        ensures
            final(self).wf(),
            final(self).enum_report() == Some(Seq::<KernelEnum>::empty()),
            final(self).missing_report() == old(self).missing_report(),
            final(self).overrides() == old(self).overrides(),
            final(self).pool() == old(self).pool(),
    {
        let report: Vec<KernelEnum> = Vec::new();
        assert(report@ =~= Seq::<KernelEnum>::empty());
        self.enumerate = Some(report);
    }

    pub fn is_enumerate(&self) -> (r: bool)
        ensures
            r == (self.enum_report() is Some),
    {
        self.enumerate.is_some()
    }

    /// The tag of what is enumerated now: the pool's name, or nothing outside a pool.
    pub open spec fn tag(&self) -> Seq<char> {
        match self.pool() {
            Some(pool) => pool,
            None => seq![],
        }
    }

    /// Report a kernel; without effect outside an enumeration.
    pub fn record_enum(
        &mut self,
        name: String,
        kind: KernelKind,
        gpu: &str,
        compute_dtype: Option<DType>,
        kv_dtype: Option<DType>,
        config: Vec<ConfigField>,
        backends: &Vec<&'static str>,
    )
        requires
            old(self).wf(),
        ensures
            final(self).wf(),
            match old(self).enum_report() {
                Some(report) => final(self).enum_report() is Some && {
                    let now = final(self).enum_report()->0;
                    &&& now.len() == report.len() + 1
                    &&& now.drop_last() == report
                    &&& now.last().pool@ == old(self).tag()
                    &&& now.last().name == name
                    &&& now.last().kind == kind
                    &&& now.last().gpu@ == gpu@
                    &&& now.last().compute_dtype == compute_dtype
                    &&& now.last().kv_dtype == kv_dtype
                    &&& now.last().config == config
                    &&& strings(now.last().backends@) == texts(backends@)
                },
                None => final(self).enum_report() is None,
            },
            final(self).missing_report() == old(self).missing_report(),
            final(self).overrides() == old(self).overrides(),
            final(self).pool() == old(self).pool(),
    {
        let current: Option<Vec<KernelEnum>> = self.enumerate.take();
        if let Some(mut report) = current {
            let ghost before = report@;
            let pool: String = match &self.active_pool {
                Some(pool) => pool.clone(),
                None => {
                    let none = String::new();
                    assert(none@ =~= seq![]);
                    none
                },
            };
            report.push(
                KernelEnum {
                    pool,
                    name,
                    kind,
                    gpu: gpu.to_owned(),
                    compute_dtype,
                    kv_dtype,
                    config,
                    backends: own_names(backends),
                },
            );
            assert(report@.drop_last() =~= before);
            self.enumerate = Some(report);
        }
    }

    /// Take the enumeration and go on with an empty one; empty outside an enumeration.
    pub fn take_enum_report(&mut self) -> (r: Vec<KernelEnum>)
        requires
            old(self).wf(),
        ensures
            final(self).wf(),
            match old(self).enum_report() {
                Some(report) => r@ == report && final(self).enum_report() == Some(
                    Seq::<KernelEnum>::empty(),
                ),
                None => r@.len() == 0 && final(self).enum_report() is None,
            },
            final(self).missing_report() == old(self).missing_report(),
            final(self).overrides() == old(self).overrides(),
            final(self).pool() == old(self).pool(),
    {
        let current: Option<Vec<KernelEnum>> = self.enumerate.take();
        match current {
            Some(report) => {
                let fresh: Vec<KernelEnum> = Vec::new();
                assert(fresh@ =~= Seq::<KernelEnum>::empty());
                self.enumerate = Some(fresh);
                report
            },
            None => Vec::new(),
        }
    }
}

/// A pool's scope leaves no trace: once it has ended, the pool and the overrides are
/// those that were in force before it began, whatever was reported in between.
pub proof fn scope_leaves_no_trace(
    before: PerfApiBridge,
    guard: BackendOverrideGuard,
    after: PerfApiBridge,
)
    requires
        guard.pool() == before.pool(),
        guard.overrides() == before.overrides(),
        after.pool() == guard.pool(),
        after.overrides() == guard.overrides(),
    ensures
        after.pool() == before.pool(),
        after.overrides() == before.overrides(),
        after.tag() == before.tag(),
{
}

/// Whether every payload can be read.
pub open spec fn payloads_wf(payloads: Seq<ArgsPayload>) -> bool {
    forall|i: int| 0 <= i < payloads.len() ==> (#[trigger] payloads[i]).wf()
}

/// Whether every payload of a batch names the backend.
pub open spec fn all_name(payloads: Seq<ArgsPayload>, backend: Seq<char>) -> bool {
    forall|i: int|
        0 <= i < payloads.len() ==> payload_backend((#[trigger] payloads[i])@) == Some(backend)
}

/// Why a batch is for no single backend.
pub open spec fn unshared_text(payloads: Seq<ArgsPayload>) -> Seq<char> {
    if payloads.len() == 0 || payload_backend(payloads[0]@) is None {
        "spec is missing backend"@
    } else {
        "bridge get_times requires one backend per batch"@
    }
}

/// Whether all payloads of a batch name one backend.
pub open spec fn share_backend(payloads: Seq<ArgsPayload>) -> bool {
    payloads.len() > 0 && payload_backend(payloads[0]@) is Some && all_name(
        payloads,
        payload_backend(payloads[0]@)->0,
    )
}

/// A batch of shapes that all name a backend is for that backend, and can be counted
/// against it.
pub proof fn uniform_batch_is_shared(payloads: Seq<ArgsPayload>, backend: Seq<char>)
    requires
        payloads.len() > 0,
        all_name(payloads, backend),
    ensures
        share_backend(payloads),
        payload_backend(payloads[0]@) == Some(backend),
{
    assert(payload_backend(payloads[0]@) == Some(backend));
}

/// The one backend that a batch is for, or why there is none.
pub fn shared_backend<'a>(payloads: &'a Vec<ArgsPayload>) -> (r: Result<&'a str, PerfApiError>)
    requires
        payloads_wf(payloads@),
    ensures
        match r {
            Ok(backend) => payloads@.len() > 0 && all_name(payloads@, backend@),
            Err(error) => !share_backend(payloads@) && (error matches PerfApiError::InvalidRequest(
                text,
            ) && text@ == unshared_text(payloads@)),
        },
{
    let first: Option<&str> = if payloads.len() == 0 {
        None
    } else {
        assert(payloads@[0].wf());
        payloads[0].backend()
    };
    match first {
        None => Err(PerfApiError::InvalidRequest("spec is missing backend".to_owned())),
        Some(backend) => {
            let mut i: usize = 0;
            while i < payloads.len()
                invariant
                    i <= payloads@.len(),
                    payloads_wf(payloads@),
                    payloads@.len() > 0,
                    payload_backend(payloads@[0]@) == Some(backend@),
                    forall|j: int|
                        0 <= j < i ==> payload_backend((#[trigger] payloads@[j])@) == Some(backend@),
                decreases payloads@.len() - i,
            {
                assert(payloads@[i as int].wf());
                let same: bool = match payloads[i].backend() {
                    Some(name) => text_eq(name, backend),
                    None => false,
                };
                if !same {
                    assert(payload_backend(payloads@[i as int]@) != Some(backend@));
                    return Err(
                        PerfApiError::InvalidRequest(
                            "bridge get_times requires one backend per batch".to_owned(),
                        ),
                    );
                }
                i += 1;
            }
            Ok(backend)
        },
    }
}

/// Whether an error names the first payload that does not name the backend.
pub open spec fn names_mismatch(
    error: PerfApiError,
    payloads: Seq<ArgsPayload>,
    backend: Seq<char>,
) -> bool {
    exists|i: int|
        0 <= i < payloads.len() && all_name(payloads.take(i), backend) && payload_backend(
            (#[trigger] payloads[i])@,
        ) != Some(backend) && (error matches PerfApiError::InvalidRequest(text) && text@
            == mismatch_text(i as nat, payload_backend(payloads[i]@), backend))
}

/// What is wrong with a payload that does not name the backend.
pub open spec fn mismatch_text(
    index: nat,
    named: Option<Seq<char>>,
    backend: Seq<char>,
) -> Seq<char> {
    match named {
        Some(other) => "count_missing backend kwarg '"@ + backend + "' disagrees with spec["@
            + decimal(index) + "].backend = '"@ + other + "'"@,
        None => "count_missing spec["@ + decimal(index) + "] is missing backend"@,
    }
}

/// Check that every payload of a batch names the backend that it is counted against.
pub fn ensure_payload_backends_match(payloads: &Vec<ArgsPayload>, backend: &str) -> (r: Result<
    (),
    PerfApiError,
>)
    requires
        payloads_wf(payloads@),
    ensures
        match r {
            Ok(()) => all_name(payloads@, backend@),
            Err(error) => names_mismatch(error, payloads@, backend@),
        },
{
    let mut i: usize = 0;
    while i < payloads.len()
        invariant
            i <= payloads@.len(),
            payloads_wf(payloads@),
            forall|j: int|
                0 <= j < i ==> payload_backend((#[trigger] payloads@[j])@) == Some(backend@),
        decreases payloads@.len() - i,
    {
        assert(payloads@[i as int].wf());
        assert(all_name(payloads@.take(i as int), backend@));
        match payloads[i].backend() {
            Some(named) => {
                if !text_eq(named, backend) {
                    let mut text = String::new();
                    text.append("count_missing backend kwarg '");
                    text.append(backend);
                    text.append("' disagrees with spec[");
                    push_decimal(&mut text, i as u64);
                    text.append("].backend = '");
                    text.append(named);
                    text.append("'");
                    assert(text@ =~= mismatch_text(i as nat, Some(named@), backend@));
                    assert(payload_backend(payloads@[i as int]@) != Some(backend@));
                    return Err(PerfApiError::InvalidRequest(text));
                }
            },
            None => {
                let mut text = String::new();
                text.append("count_missing spec[");
                push_decimal(&mut text, i as u64);
                text.append("] is missing backend");
                assert(text@ =~= mismatch_text(i as nat, None, backend@));
                return Err(PerfApiError::InvalidRequest(text));
            },
        }
        i += 1;
    }
    Ok(())
}

/// A call of a profiler function for one backend and GPU.
#[derive(Clone, Debug, PartialEq, Eq)]
pub struct ProfilerCall {
    pub function: String,
    pub backend: String,
    pub gpu_name: String,
}

/// The name of the profiler function that measures a kind.
pub fn times_function(kind: KernelKind) -> (r: String)
    ensures
        r@ == "get_"@ + kind@ + "_times"@,
{
    let mut out = String::new();
    out.append("get_");
    out.append(kind);
    out.append("_times");
    assert(out@ =~= "get_"@ + kind@ + "_times"@);
    out
}

/// The name of the profiler function that counts what is missing of a kind.
pub fn count_function(kind: KernelKind) -> (r: String)
    ensures
        r@ == "count_missing_"@ + kind@,
{
    let mut out = String::new();
    out.append("count_missing_");
    out.append(kind);
    assert(out@ =~= "count_missing_"@ + kind@);
    out
}

/// The call that measures a batch; none for an empty batch, whose result is empty.
pub fn plan_get_times(payloads: &Vec<ArgsPayload>, kind: KernelKind, gpu_name: &str) -> (r: Result<
    Option<ProfilerCall>,
    PerfApiError,
>)
    requires
        payloads_wf(payloads@),
    ensures
        match r {
            Ok(None) => payloads@.len() == 0,
            Ok(Some(call)) => payloads@.len() > 0 && call.function@ == "get_"@ + kind@ + "_times"@
                && call.gpu_name@ == gpu_name@ && all_name(payloads@, call.backend@),
            Err(error) => payloads@.len() > 0 && !share_backend(payloads@) && (error
                matches PerfApiError::InvalidRequest(text) && text@ == unshared_text(payloads@)),
        },
{
    if payloads.len() == 0 {
        return Ok(None);
    }
    match shared_backend(payloads) {
        Ok(backend) => Ok(
            Some(
                ProfilerCall {
                    function: times_function(kind),
                    backend: backend.to_owned(),
                    gpu_name: gpu_name.to_owned(),
                },
            ),
        ),
        Err(error) => Err(error),
    }
}

/// The call that counts what is missing of a batch; none for an empty batch, of which
/// nothing is missing.
pub fn plan_count_missing(
    payloads: &Vec<ArgsPayload>,
    kind: KernelKind,
    backend: &str,
    gpu_name: &str,
) -> (r: Result<Option<ProfilerCall>, PerfApiError>)
    requires
        payloads_wf(payloads@),
    ensures
        match r {
            Ok(None) => payloads@.len() == 0,
            Ok(Some(call)) => payloads@.len() > 0 && call.function@ == "count_missing_"@ + kind@
                && call.gpu_name@ == gpu_name@ && call.backend@ == backend@ && all_name(
                payloads@,
                backend@,
            ),
            Err(error) => names_mismatch(error, payloads@, backend@),
        },
{
    if payloads.len() == 0 {
        return Ok(None);
    }
    match ensure_payload_backends_match(payloads, backend) {
        Ok(()) => Ok(
            Some(
                ProfilerCall {
                    function: count_function(kind),
                    backend: backend.to_owned(),
                    gpu_name: gpu_name.to_owned(),
                },
            ),
        ),
        Err(error) => Err(error),
    }
}

/// Check that a profiler answered every shape of a batch.
pub fn check_result_count(results: usize, specs: usize) -> (r: Result<(), PerfApiError>)
    ensures
        match r {
            Ok(()) => results == specs,
            Err(error) => results != specs && (error matches PerfApiError::TypeMismatch(text)
                && text@ == "perf_api returned "@ + decimal(results as nat) + " result(s) for "@
                + decimal(specs as nat) + " spec(s)"@),
        },
{
    if results == specs {
        return Ok(());
    }
    let mut text = String::new();
    text.append("perf_api returned ");
    push_decimal(&mut text, results as u64);
    text.append(" result(s) for ");
    push_decimal(&mut text, specs as u64);
    text.append(" spec(s)");
    assert(text@ =~= "perf_api returned "@ + decimal(results as nat) + " result(s) for "@ + decimal(
        specs as nat,
    ) + " spec(s)"@);
    Err(PerfApiError::TypeMismatch(text))
}

/// The measurements of a batch, or the first shape that is missing from the database.
/// Rows need not be read past the first that is missing.
pub fn collect_results<T: Copy>(
    kind: KernelKind,
    backend: &str,
    specs: Vec<ArgsPayload>,
    rows: &Vec<Option<T>>,
) -> (r: Result<Vec<T>, PerfApiError>)
    requires
        rows@.len() <= specs@.len(),
        rows@.len() < specs@.len() ==> rows@.len() > 0 && rows@.last() is None,
    ensures
        match r {
            Ok(results) => {
                &&& rows@.len() == specs@.len()
                &&& results@.len() == rows@.len()
                &&& forall|i: int|
                    0 <= i < rows@.len() ==> #[trigger] rows@[i] == Some(results@[i])
            },
            Err(error) => exists|i: int|
                0 <= i < rows@.len() && (#[trigger] rows@[i]) is None && (forall|j: int|
                    0 <= j < i ==> (#[trigger] rows@[j]) is Some) && (error
                    matches PerfApiError::MissingEntry { kind: k, backend: b, spec } && k == kind
                    && b@ == backend@ && spec == specs@[i]),
        },
{
    let mut shapes: Vec<ArgsPayload> = specs;
    let mut results: Vec<T> = Vec::new();
    let mut i: usize = 0;
    while i < rows.len()
        invariant
            i <= rows@.len() <= specs@.len(),
            shapes@ == specs@,
            results@.len() == i,
            forall|j: int| 0 <= j < i ==> #[trigger] rows@[j] == Some(results@[j]),
        decreases rows@.len() - i,
    {
        match rows[i] {
            Some(row) => {
                results.push(row);
            },
            None => {
                let spec: ArgsPayload = shapes.remove(i);
                assert(rows@[i as int] is None);
                return Err(
                    PerfApiError::MissingEntry { kind, backend: backend.to_owned(), spec },
                );
            },
        }
        i += 1;
    }
    Ok(results)
}

} // verus!
