//! A fitted table and the backend that it was measured on.

use crate::bridge::error::BuildError;
use crate::bridge::payload::KernelKind;
use crate::cache::cells::FitWarning;
use crate::cache::interp::{LeafMetrics, Metrics4};
use crate::cache::scalar::Scalar;
use crate::cache::{
    axis_count, axis_points, build_cache, is_fitted, kind_text, says_unimplemented, sweep_fits_kind,
    unimplemented_kind, Cache, CacheKind, FittedCache,
};
use vstd::prelude::*;

verus! {

/// The table of one backend.
#[derive(Clone, Debug)]
pub struct BackendCache<S> {
    backend: &'static str,
    cache_kind: CacheKind,
    cache: FittedCache<S>,
}

/// A looked-up cost and the backend that it is for.
#[derive(Clone, Copy, Debug)]
pub struct LookupResult<S> {
    pub leaf: LeafMetrics<S>,
    pub selected_backend: Option<&'static str>,
}

/// A warning's text with the backend and the table kind that it comes from.
pub open spec fn annotated(backend: Seq<char>, kind: CacheKind, detail: Seq<char>) -> Seq<char> {
    backend + ":"@ + kind_text(kind) + ": "@ + detail
}

impl<S: Scalar> BackendCache<S> {
    pub closed spec fn name(&self) -> &'static str {
        self.backend
    }

    pub closed spec fn kind(&self) -> CacheKind {
        self.cache_kind
    }

    pub closed spec fn table(&self) -> FittedCache<S> {
        self.cache
    }

    pub open spec fn wf(&self) -> bool {
        self.table().wf()
    }

    /// Fit the table of a backend.
    pub fn fit(
        kernel_kind: KernelKind,
        backend: &'static str,
        cache_kind: CacheKind,
        axes: &Vec<Vec<S::Wide>>,
        samples: &Vec<Option<Metrics4<S>>>,
    ) -> (r: Result<(Self, Vec<FitWarning>), BuildError>)
        requires
            sweep_fits_kind(cache_kind, axis_points(axes@), samples@),
        ensures
            match r {
                Ok((cache, warnings)) => !unimplemented_kind(cache_kind) && cache.wf()
                    && cache.name() == backend && cache.kind() == cache_kind
                    && cache.table().arity() == axis_count(cache_kind) && is_fitted(
                    cache_kind,
                    axis_points(axes@),
                    samples@,
                    cache.table(),
                    warnings@,
                ),
                Err(error) => unimplemented_kind(cache_kind) && says_unimplemented(
                    error,
                    kernel_kind,
                    cache_kind,
                ),
            },
    {
        match build_cache(kernel_kind, cache_kind, axes, samples) {
            Ok((cache, warnings)) => Ok((BackendCache { backend, cache_kind, cache }, warnings)),
            Err(error) => Err(error),
        }
    }

    /// Look up a query in the table.
    pub fn eval(&self, sweep: &Vec<S>) -> (r: LeafMetrics<S>)
        requires
            self.wf(),
            sweep@.len() == self.table().arity(),
        ensures
            match self.table().reading(sweep@) {
                Some((m, outside)) => r.is_value(m, outside),
                None => r.is_miss(),
            },
    {
        self.cache.eval(sweep)
    }

    /// Look up a query in the table and name the backend.
    pub fn lookup(&self, sweep: &Vec<S>) -> (r: LookupResult<S>)
        requires
            self.wf(),
            sweep@.len() == self.table().arity(),
        ensures
            r.selected_backend == Some(self.name()),
            match self.table().reading(sweep@) {
                Some((m, outside)) => r.leaf.is_value(m, outside),
                None => r.leaf.is_miss(),
            },
    {
        LookupResult { leaf: self.cache.eval(sweep), selected_backend: Some(self.backend) }
    }

    /// Where a cell of the table stands and its time, for the text of a warning.
    pub fn cell(&self, cell: usize) -> (r: Option<(Vec<S>, Option<S>)>)
        requires
            self.wf(),
        ensures
            match r {
                Some((coords, time)) => self.table().held(cell as int) == Some((coords@, time)),
                None => self.table().held(cell as int) is None,
            },
    {
        self.cache.cell(cell)
    }

    /// A warning's text with the backend and the table kind that it comes from.
    pub fn annotate(&self, detail: &str) -> (r: String)
        ensures
            r@ == annotated(self.name()@, self.kind(), detail@),
    {
        let mut out = String::new();
        out.append(self.backend);
        out.append(":");
        out.append(self.cache_kind.name());
        out.append(": ");
        out.append(detail);
        assert(out@ =~= annotated(self.name()@, self.kind(), detail@));
        out
    }
}

} // verus!
