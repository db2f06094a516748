//! Interpolation tables over profiled sweeps.

use crate::bridge::error::BuildError;
use crate::bridge::payload::KernelKind;
use crate::cache::cells::{names_cells, FitWarning};
use crate::cache::direct_1d::{is_uniform_axis, Cache1DDirect};
use crate::cache::interp::{LeafMetrics, Metrics4};
use crate::cache::linear_1d::Cache1DLinear;
use crate::cache::linear_2d::Cache2DLinear;
use crate::cache::linear_3d::Cache3DLinear;
use crate::cache::order::all_points_defined;
use crate::cache::peak::PeakRates;
use crate::cache::scalar::Scalar;
use crate::cache::slopes::table_slopes;
use vstd::prelude::*;

pub mod affine;
pub mod backend;
pub mod cells;
pub mod corners;
pub mod direct_1d;
pub mod exact;
pub mod flagged;
pub mod interp;
pub mod linear_1d;
pub mod linear_2d;
pub mod linear_3d;
pub mod order;
pub mod partial;
pub mod peak;
pub mod placed;
pub mod plane;
pub mod rates;
pub mod scalar;
pub mod slopes;
pub mod warned;

verus! {

/// How a two-axis table continues past its last grid point. Inside the grid all
/// policies agree.
#[derive(Clone, Copy, Debug, PartialEq, Eq, Hash, Structural)]
pub enum Extrapolation {
    /// The product of the axes is the work: extend the bilinear surface itself.
    Product,
    /// The axes are independent loads that add: extend by one fitted slope per axis.
    Weighted,
    /// No defensible continuation: hold the boundary value.
    Clamp,
}

/// Which interpolation table a kernel's samples go into.
#[derive(Clone, Copy, Debug, PartialEq, Eq, Hash, Structural)]
pub enum CacheKind {
    Cache1DLinear,
    Cache1DDirect,
    Cache2DLinear(Extrapolation),
    Cache3DLinear,
    Cache2DLog,
    Cache2DCliff,
}

/// A fitted table.
pub trait Cache<S: Scalar>: Sized {
    /// Whether the table's parts fit together.
    spec fn wf(&self) -> bool;

    /// How many coordinates a query has.
    spec fn arity(&self) -> nat;

    /// The value at a query and whether it counts as off the grid; nothing where the
    /// table has no value.
    spec fn reading(&self, sweep: Seq<S>) -> Option<(Metrics4<S>, bool)>;

    /// The best rates over the table's cells.
    spec fn best_rates(&self) -> PeakRates<S::Wide>;

    /// Where a cell of the table stands and its time, if its sample was kept; nothing
    /// past the last cell.
    spec fn held(&self, cell: int) -> Option<(Seq<S>, Option<S>)>;

    /// Look up a query: metrics that are not negative, or a flagged placeholder.
    fn eval(&self, sweep: &Vec<S>) -> (r: LeafMetrics<S>)
        requires
            self.wf(),
            sweep@.len() == self.arity(),
        ensures
            match self.reading(sweep@) {
                Some((m, outside)) => r.is_value(m, outside),
                None => r.is_miss(),
            },
    ;

    fn peak_rates(&self) -> (r: PeakRates<S::Wide>)
        requires
            self.wf(),
        ensures
            r == self.best_rates(),
    ;

    /// Where a cell of the table stands and its time, for the text of a warning.
    fn cell(&self, cell: usize) -> (r: Option<(Vec<S>, Option<S>)>)
        requires
            self.wf(),
        ensures
            match r {
                Some((coords, time)) => self.held(cell as int) == Some((coords@, time)),
                None => self.held(cell as int) is None,
            },
    ;
}

/// What is wrong with a profiled sample.
#[derive(Clone, Copy, Debug, PartialEq, Eq, Hash, Structural)]
pub enum OutlierKind {
    /// Its metrics are not all finite and non-negative.
    NonFinite,
    /// Its time drops where a larger shape should take longer.
    MonotonicityBreak,
    /// It sits on a scheduler cliff.
    Cliff,
}

/// A warning for the build manifest.
#[derive(Clone, Debug, PartialEq, Eq, Hash)]
pub struct OutlierWarning {
    pub kind: OutlierKind,
    pub detail: String,
}

/// The table kinds that no table implements yet.
pub open spec fn unimplemented_kind(kind: CacheKind) -> bool {
    kind == CacheKind::Cache2DLog || kind == CacheKind::Cache2DCliff
}

/// The name of a table kind.
pub open spec fn kind_text(kind: CacheKind) -> Seq<char> {
    match kind {
        CacheKind::Cache1DLinear => "Cache1DLinear"@,
        CacheKind::Cache1DDirect => "Cache1DDirect"@,
        CacheKind::Cache2DLinear(Extrapolation::Product) => "Cache2DLinear(Product)"@,
        CacheKind::Cache2DLinear(Extrapolation::Weighted) => "Cache2DLinear(Weighted)"@,
        CacheKind::Cache2DLinear(Extrapolation::Clamp) => "Cache2DLinear(Clamp)"@,
        CacheKind::Cache3DLinear => "Cache3DLinear"@,
        CacheKind::Cache2DLog => "Cache2DLog"@,
        CacheKind::Cache2DCliff => "Cache2DCliff"@,
    }
}

impl CacheKind {
    /// The name of the kind.
    pub fn name(self) -> (r: &'static str)
        ensures
            r@ == kind_text(self),
    {
        match self {
            CacheKind::Cache1DLinear => "Cache1DLinear",
            CacheKind::Cache1DDirect => "Cache1DDirect",
            CacheKind::Cache2DLinear(Extrapolation::Product) => "Cache2DLinear(Product)",
            CacheKind::Cache2DLinear(Extrapolation::Weighted) => "Cache2DLinear(Weighted)",
            CacheKind::Cache2DLinear(Extrapolation::Clamp) => "Cache2DLinear(Clamp)",
            CacheKind::Cache3DLinear => "Cache3DLinear",
            CacheKind::Cache2DLog => "Cache2DLog",
            CacheKind::Cache2DCliff => "Cache2DCliff",
        }
    }
}

/// How many axes the grid of a table kind has.
pub open spec fn axis_count(kind: CacheKind) -> int {
    match kind {
        CacheKind::Cache1DLinear => 1,
        CacheKind::Cache1DDirect => 1,
        CacheKind::Cache3DLinear => 3,
        _ => 2,
    }
}

/// A fitted table of any kind.
#[derive(Clone, Debug)]
pub enum FittedCache<S> {
    Linear1D(Cache1DLinear<S>),
    Direct1D(Cache1DDirect<S>),
    Linear2D(Cache2DLinear<S>),
    Linear3D(Cache3DLinear<S>),
}

impl<S: Scalar> Cache<S> for FittedCache<S> {
    open spec fn wf(&self) -> bool {
        match self {
            FittedCache::Linear1D(cache) => cache.wf(),
            FittedCache::Direct1D(cache) => cache.wf(),
            FittedCache::Linear2D(cache) => cache.wf(),
            FittedCache::Linear3D(cache) => cache.wf(),
        }
    }

    open spec fn arity(&self) -> nat {
        match self {
            FittedCache::Linear1D(cache) => cache.arity(),
            FittedCache::Direct1D(cache) => cache.arity(),
            FittedCache::Linear2D(cache) => cache.arity(),
            FittedCache::Linear3D(cache) => cache.arity(),
        }
    }

    open spec fn reading(&self, sweep: Seq<S>) -> Option<(Metrics4<S>, bool)> {
        match self {
            FittedCache::Linear1D(cache) => cache.reading(sweep),
            FittedCache::Direct1D(cache) => cache.reading(sweep),
            FittedCache::Linear2D(cache) => cache.reading(sweep),
            FittedCache::Linear3D(cache) => cache.reading(sweep),
        }
    }

    open spec fn best_rates(&self) -> PeakRates<S::Wide> {
        match self {
            FittedCache::Linear1D(cache) => cache.best_rates(),
            FittedCache::Direct1D(cache) => cache.best_rates(),
            FittedCache::Linear2D(cache) => cache.best_rates(),
            FittedCache::Linear3D(cache) => cache.best_rates(),
        }
    }

    open spec fn held(&self, cell: int) -> Option<(Seq<S>, Option<S>)> {
        match self {
            FittedCache::Linear1D(cache) => cache.held(cell),
            FittedCache::Direct1D(cache) => cache.held(cell),
            FittedCache::Linear2D(cache) => cache.held(cell),
            FittedCache::Linear3D(cache) => cache.held(cell),
        }
    }

    fn eval(&self, sweep: &Vec<S>) -> (r: LeafMetrics<S>) {
        match self {
            FittedCache::Linear1D(cache) => cache.eval(sweep),
            FittedCache::Direct1D(cache) => cache.eval(sweep),
            FittedCache::Linear2D(cache) => cache.eval(sweep),
            FittedCache::Linear3D(cache) => cache.eval(sweep),
        }
    }

    fn peak_rates(&self) -> (r: PeakRates<S::Wide>) {
        match self {
            FittedCache::Linear1D(cache) => cache.peak_rates(),
            FittedCache::Direct1D(cache) => cache.peak_rates(),
            FittedCache::Linear2D(cache) => cache.peak_rates(),
            FittedCache::Linear3D(cache) => cache.peak_rates(),
        }
    }

    fn cell(&self, cell: usize) -> (r: Option<(Vec<S>, Option<S>)>) {
        match self {
            FittedCache::Linear1D(cache) => cache.cell(cell),
            FittedCache::Direct1D(cache) => cache.cell(cell),
            FittedCache::Linear2D(cache) => cache.cell(cell),
            FittedCache::Linear3D(cache) => cache.cell(cell),
        }
    }
}

/// The points of every axis.
pub open spec fn axis_points<W>(axes: Seq<Vec<W>>) -> Seq<Seq<W>> {
    axes.map_values(|axis: Vec<W>| axis@)
}

/// Whether a sweep and its samples can be fitted into a table of a kind.
pub open spec fn sweep_fits_kind<S: Scalar>(
    kind: CacheKind,
    axes: Seq<Seq<S::Wide>>,
    samples: Seq<Option<Metrics4<S>>>,
) -> bool {
    unimplemented_kind(kind) || {
        &&& axes.len() == axis_count(kind)
        &&& kind == CacheKind::Cache1DDirect || forall|i: int|
            0 <= i < axes.len() ==> all_points_defined(#[trigger] axes[i])
        &&& match kind {
            CacheKind::Cache1DLinear => samples.len() == axes[0].len(),
            CacheKind::Cache1DDirect => samples.len() == axes[0].len() && is_uniform_axis::<S>(
                axes[0],
            ),
            CacheKind::Cache3DLinear => samples.len() == axes[0].len() * axes[1].len()
                * axes[2].len() && axes[1].len() * axes[2].len() <= usize::MAX,
            CacheKind::Cache2DLinear(policy) => samples.len() == axes[0].len() * axes[1].len()
                && (policy == Extrapolation::Weighted ==> samples.len() > 0),
            _ => true,
        }
    }
}

/// Whether a table is the one of its kind fitted to these samples, with these warnings.
pub open spec fn is_fitted<S: Scalar>(
    kind: CacheKind,
    axes: Seq<Seq<S::Wide>>,
    samples: Seq<Option<Metrics4<S>>>,
    cache: FittedCache<S>,
    warnings: Seq<FitWarning>,
) -> bool {
    match (kind, cache) {
        (CacheKind::Cache1DLinear, FittedCache::Linear1D(table)) => table.fits(axes[0], samples)
            && warnings == table.fit_warnings(samples),
        (CacheKind::Cache1DDirect, FittedCache::Direct1D(table)) => table.fits(axes[0], samples)
            && warnings == table.fit_warnings(),
        (CacheKind::Cache2DLinear(policy), FittedCache::Linear2D(table)) => table.fits(
            axes[0],
            axes[1],
            samples,
        ) && table.policy() == policy && table.fitted() == (if policy == Extrapolation::Weighted {
            table_slopes(table.points0(), table.points1(), table.grid())
        } else {
            None
        }) && warnings == table.fit_warnings(),
        (CacheKind::Cache3DLinear, FittedCache::Linear3D(table)) => table.fits(
            axes[0],
            axes[1],
            axes[2],
            samples,
        ) && warnings == table.fit_warnings(),
        _ => false,
    }
}

/// The warnings of fitting a table can be told in its own terms: both cells of a drop in
/// time are held by the table with their times.
pub proof fn drops_in_time_are_held<S: Scalar>(
    kind: CacheKind,
    axes: Seq<Seq<S::Wide>>,
    samples: Seq<Option<Metrics4<S>>>,
    cache: FittedCache<S>,
    warnings: Seq<FitWarning>,
    k: int,
)
    requires
        cache.wf(),
        samples.len() <= usize::MAX,
        is_fitted(kind, axes, samples, cache, warnings),
        0 <= k < warnings.len(),
    ensures
        warnings[k] matches FitWarning::Break { axis, before, after } ==> {
            &&& cache.held(before as int) matches Some((coords, Some(time)))
            &&& cache.held(after as int) matches Some((coords, Some(time)))
        },
{
    match cache {
        FittedCache::Linear1D(table) => {
            table.warnings_name_points(samples);
            table.points_have_values();
        },
        FittedCache::Direct1D(table) => {
            table.warnings_name_cells();
            assert(names_cells(table.fit_warnings()[k], table.cells()));
        },
        FittedCache::Linear2D(table) => {
            table.warnings_name_cells();
            assert(names_cells(table.fit_warnings()[k], table.grid()));
        },
        FittedCache::Linear3D(table) => {
            table.warnings_name_cells();
            assert(names_cells(table.fit_warnings()[k], table.grid()));
        },
    }
}

/// Whether an error says that a table kind is not implemented.
pub open spec fn says_unimplemented(
    error: BuildError,
    kernel_kind: KernelKind,
    kind: CacheKind,
) -> bool {
    error matches BuildError::FitFailed { kind: k, reason } && k == kernel_kind && reason@
        == "cache variant "@ + kind_text(kind) + " is not yet implemented"@
}

/// Fit the table of a kernel to its samples, in row-major order; a missing sample is
/// dropped.
pub fn build_cache<S: Scalar>(
    kernel_kind: KernelKind,
    kind: CacheKind,
    axes: &Vec<Vec<S::Wide>>,
    samples: &Vec<Option<Metrics4<S>>>,
) -> (r: Result<(FittedCache<S>, Vec<FitWarning>), BuildError>)
    requires
        sweep_fits_kind(kind, axis_points(axes@), samples@),
    ensures
        match r {
            Ok((cache, warnings)) => !unimplemented_kind(kind) && cache.wf() && cache.arity()
                == axis_count(kind) && is_fitted(
                kind,
                axis_points(axes@),
                samples@,
                cache,
                warnings@,
            ),
            Err(error) => unimplemented_kind(kind) && says_unimplemented(error, kernel_kind, kind),
        },
{
    match kind {
        CacheKind::Cache1DLinear => {
            assert(all_points_defined(axis_points(axes@)[0]));
            let (cache, warnings) = Cache1DLinear::from_samples(&axes[0], samples);
            Ok((FittedCache::Linear1D(cache), warnings))
        },
        CacheKind::Cache1DDirect => {
            let (cache, warnings) = Cache1DDirect::from_samples(&axes[0], samples);
            Ok((FittedCache::Direct1D(cache), warnings))
        },
        CacheKind::Cache2DLinear(policy) => {
            assert(all_points_defined(axis_points(axes@)[0]) && all_points_defined(axis_points(axes@)[1]));
            let (cache, warnings) = Cache2DLinear::from_samples_with(
                &axes[0],
                &axes[1],
                samples,
                policy,
            );
            Ok((FittedCache::Linear2D(cache), warnings))
        },
        CacheKind::Cache3DLinear => {
            assert(all_points_defined(axis_points(axes@)[0]) && all_points_defined(axis_points(axes@)[1])
                && all_points_defined(axis_points(axes@)[2]));
            let (cache, warnings) = Cache3DLinear::from_samples(
                &axes[0],
                &axes[1],
                &axes[2],
                samples,
            );
            Ok((FittedCache::Linear3D(cache), warnings))
        },
        _ => {
            let mut reason = String::new();
            reason.append("cache variant ");
            reason.append(kind.name());
            reason.append(" is not yet implemented");
            assert(reason@ =~= "cache variant "@ + kind_text(kind) + " is not yet implemented"@);
            Err(BuildError::FitFailed { kind: kernel_kind, reason })
        },
    }
}

} // verus!
