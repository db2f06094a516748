//! Errors of profiler requests and of cache builds.

use crate::bridge::payload::{ArgsPayload, KernelKind};
use vstd::prelude::*;

verus! {

/// What a profiler request can fail with.
#[derive(Clone, Debug, PartialEq, Eq)]
pub enum PerfApiError {
    /// The first requested shape that the profile database does not hold.
    MissingEntry { kind: KernelKind, backend: String, spec: ArgsPayload },
    /// The profiler itself raised an error.
    Python(String),
    /// The profiler's answer does not have the promised form.
    TypeMismatch(String),
    /// The request is malformed and was not sent.
    InvalidRequest(String),
}

/// What building a kernel's caches can fail with.
#[derive(Clone, Debug, PartialEq, Eq)]
pub enum BuildError {
    /// A shape of the sweep is not in the profile database.
    MissingEntry { kind: KernelKind, backend: &'static str, spec: ArgsPayload },
    /// Any other failed profiler request.
    BridgeError(PerfApiError),
    /// The samples cannot be fitted.
    FitFailed { kind: KernelKind, reason: String },
}

impl BuildError {
    /// The build error for a failed profiler request of `kind` on `backend`: a
    /// missing shape stays one, tagged with the caller's own names; anything else
    /// is carried along unchanged.
    pub open spec fn of_perf_api(
        kind: KernelKind,
        backend: &'static str,
        error: PerfApiError,
    ) -> Self {
        match error {
            PerfApiError::MissingEntry { spec, .. } => BuildError::MissingEntry {
                kind,
                backend,
                spec,
            },
            _ => BuildError::BridgeError(error),
        }
    }

    /// The build error for a failed profiler request.
    pub fn from_perf_api(kind: KernelKind, backend: &'static str, error: PerfApiError) -> (r: Self)
        ensures
            r == Self::of_perf_api(kind, backend, error),
    {
        match error {
            PerfApiError::MissingEntry { spec, .. } => BuildError::MissingEntry {
                kind,
                backend,
                spec,
            },
            other => BuildError::BridgeError(other),
        }
    }
}

} // verus!
