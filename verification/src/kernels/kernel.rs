//! Building a kernel: which requests go to the profiler, and the tables that its
//! answers make.
//!
//! A build is a sequence of steps, one per backend. Each step hands out the shapes to
//! ask the profiler about and takes its answer. In a dry run the shapes are only
//! counted; in an enumeration no request is made at all.

use crate::bridge::build_state::{
    all_name, payloads_wf, strings, texts, KernelMissing, PerfApiBridge,
};
use crate::bridge::error::{BuildError, PerfApiError};
use crate::bridge::metrics::KernelMetrics;
use crate::bridge::payload::{payload_backend, ArgsPayload, KernelKind};
use crate::cache::backend::BackendCache;
use crate::cache::cells::FitWarning;
use crate::cache::interp::{coverage_bits, CoverageFlags, LeafMetrics, Metrics4, NO_BACKEND};
use crate::cache::order::all_points_defined;
use crate::cache::scalar::{at_least_zero, floored, ranks_below, FIXED_ONE, Fixed, Scalar, Wide};
use crate::cache::{
    axis_count, axis_points, is_fitted, sweep_fits_kind, unimplemented_kind, Cache, CacheKind,
};
use crate::kernels::config::{copy_names, fields_view, KernelConfig};
use crate::kernels::engine::{fits_table, stands_at, CellPayloads, KernelSpec};
use crate::kernels::feasible::{
    count_feasible, drop_infeasible, feasible_count, feasible_items, kept, kept_from_items,
    place_feasible, placed_item,
};
use crate::sweep::{
    cell_at, cell_count, count_of_block, count_of_line, count_of_plane, Ratio, SweepGrid,
};
use vstd::prelude::*;

verus! {

/// The points of an axis as numbers.
pub open spec fn axis_numbers<W: Wide>(points: Seq<u32>, unit: u32) -> Seq<W> {
    Seq::new(points.len(), |i: int| W::ratio_value(points[i] as u64, unit as u64))
}

/// The axes of a sweep as numbers.
pub open spec fn sweep_numbers<W: Wide>(points: Seq<Seq<u32>>, units: Seq<u32>) -> Seq<Seq<W>> {
    Seq::new(points.len(), |i: int| axis_numbers(points[i], units[i]))
}

/// Coordinates as numbers of a table.
pub open spec fn coord_numbers<S: Scalar>(coords: Seq<Ratio>) -> Seq<S> {
    Seq::new(coords.len(), |i: int| coord_number(coords[i]))
}

/// A coordinate as a number of a table: divided in full width, then narrowed.
pub open spec fn coord_number<S: Scalar>(coord: Ratio) -> S {
    S::narrowed(S::Wide::ratio_value(coord.numerator, coord.denominator))
}

/// Equal fractions are the same fixed-point number.
proof fn equal_fractions_round_alike(n: int, d: int, p: int, u: int, one: int)
    requires
        d > 0,
        u > 0,
        n >= 0,
        p >= 0,
        one > 0,
        n * u == p * d,
    ensures
        (n * one) / d == (p * one) / u,
{
    let q = (n * one) / d;
    assert(q * d <= n * one < (q + 1) * d) by (nonlinear_arith)
        requires
            q == (n * one) / d,
            d > 0,
    ;
    assert((n * one) * u == (p * one) * d) by (nonlinear_arith)
        requires
            n * u == p * d,
    ;
    let top = p * one;
    assert(q * u <= top < (q + 1) * u) by (nonlinear_arith)
        requires
            q * d <= n * one < (q + 1) * d,
            (n * one) * u == top * d,
            d > 0,
            u > 0,
    ;
    assert(top / u == q) by (nonlinear_arith)
        requires
            q * u <= top < (q + 1) * u,
            u > 0,
    ;
}

/// A query that stands at a cell is looked up exactly at the grid point that the table
/// has for it: the coordinate and the point of the axis are the same number.
pub proof fn standing_coordinates_are_grid_points(
    position: Seq<Ratio>,
    axes: Seq<Seq<u32>>,
    units: Seq<u32>,
    places: Seq<int>,
    i: int,
)
    requires
        axes.len() == units.len() == places.len(),
        0 <= i < axes.len(),
        forall|k: int| 0 <= k < axes.len() ==> 0 <= #[trigger] places[k] < axes[k].len(),
        units[i] > 0,
        stands_at(position, Seq::new(axes.len(), |k: int| axes[k][places[k]]), units),
    ensures
        coord_numbers::<Fixed>(position)[i] == sweep_numbers::<Fixed>(axes, units)[i][places[i]],
{
    let cell = Seq::new(axes.len(), |k: int| axes[k][places[k]]);
    assert(0 <= places[i] < axes[i].len());
    let at = position[i];
    assert(at.numerator * units[i] == cell[i] * at.denominator);
    equal_fractions_round_alike(
        at.numerator as int,
        at.denominator as int,
        cell[i] as int,
        units[i] as int,
        FIXED_ONE as int,
    );
}

fn to_axis<W: Wide>(points: &Vec<u32>, unit: u32) -> (r: Vec<W>)
    ensures
        r@ == axis_numbers::<W>(points@, unit),
        unit > 0 ==> forall|i: int| 0 <= i < r@.len() ==> !(#[trigger] r@[i]).undefined(),
{
    let mut out: Vec<W> = Vec::new();
    let mut i: usize = 0;
    while i < points.len()
        invariant
            i <= points@.len(),
            out@.len() == i,
            forall|j: int|
                0 <= j < i ==> #[trigger] out@[j] == W::ratio_value(points@[j] as u64, unit as u64),
            unit > 0 ==> forall|j: int| 0 <= j < i ==> !(#[trigger] out@[j]).undefined(),
        decreases points@.len() - i,
    {
        out.push(W::from_ratio(points[i] as u64, unit as u64));
        i += 1;
    }
    assert(out@ =~= axis_numbers::<W>(points@, unit));
    out
}

/// The axes of a sweep as numbers.
pub fn grid_axes<W: Wide>(grid: &SweepGrid) -> (r: Vec<Vec<W>>)
    requires
        grid.scale().len() == grid.points().len(),
        forall|i: int| 0 <= i < grid.scale().len() ==> #[trigger] grid.scale()[i] > 0,
    ensures
        axis_points(r@) == sweep_numbers::<W>(grid.points(), grid.scale()),
        forall|i: int, j: int|
            0 <= i < r@.len() && 0 <= j < r@[i]@.len() ==> !(#[trigger] r@[i]@[j]).undefined(),
{
    let axes: &Vec<Vec<u32>> = grid.axes();
    let units: &Vec<u32> = grid.units();
    let mut out: Vec<Vec<W>> = Vec::new();
    let mut i: usize = 0;
    assert(axes@.len() == grid.points().len());
    while i < axes.len()
        invariant
            i <= axes@.len(),
            out@.len() == i,
            axes@.len() == grid.points().len(),
            axes@.map_values(|axis: Vec<u32>| axis@) == grid.points(),
            units@ == grid.scale(),
            units@.len() == axes@.len(),
            forall|k: int| 0 <= k < grid.scale().len() ==> #[trigger] grid.scale()[k] > 0,
            forall|k: int|
                0 <= k < i ==> (#[trigger] out@[k])@ == axis_numbers::<W>(
                    grid.points()[k],
                    grid.scale()[k],
                ),
            forall|k: int, j: int|
                0 <= k < i && 0 <= j < out@[k]@.len() ==> !(#[trigger] out@[k]@[j]).undefined(),
        decreases axes@.len() - i,
    {
        assert(grid.scale()[i as int] > 0);
        assert(axes@.map_values(|axis: Vec<u32>| axis@)[i as int] == axes@[i as int]@);
        out.push(to_axis::<W>(&axes[i], units[i]));
        i += 1;
    }
    assert(axis_points(out@) =~= sweep_numbers::<W>(grid.points(), grid.scale()));
    out
}

fn to_numbers<S: Scalar>(coords: &Vec<Ratio>) -> (r: Vec<S>)
    ensures
        r@ == coord_numbers::<S>(coords@),
{
    let mut out: Vec<S> = Vec::new();
    let mut i: usize = 0;
    while i < coords.len()
        invariant
            i <= coords@.len(),
            out@.len() == i,
            forall|j: int|
                0 <= j < i ==> #[trigger] out@[j] == coord_number::<S>(coords@[j]),
        decreases coords@.len() - i,
    {
        let coord: Ratio = coords[i];
        out.push(S::narrow(S::Wide::from_ratio(coord.numerator, coord.denominator)));
        i += 1;
    }
    assert(out@ =~= coord_numbers::<S>(coords@));
    out
}

/// A kernel needs a candidate backend.
pub fn ensure_has_backends(
    kernel_kind: KernelKind,
    field_name: &'static str,
    backends: &Vec<&'static str>,
) -> (r: Result<(), BuildError>)
    ensures
        match r {
            Ok(()) => backends@.len() > 0,
            Err(error) => backends@.len() == 0 && has_no_backends(error, kernel_kind, field_name@),
        },
{
    if backends.len() == 0 {
        let mut reason = String::new();
        reason.append(field_name);
        reason.append(" must not be empty");
        assert(reason@ =~= field_name@ + " must not be empty"@);
        return Err(BuildError::FitFailed { kind: kernel_kind, reason });
    }
    Ok(())
}

/// Whether an error says that a kernel has no candidate backend.
pub open spec fn has_no_backends(
    error: BuildError,
    kernel_kind: KernelKind,
    field_name: Seq<char>,
) -> bool {
    error matches BuildError::FitFailed { kind, reason } && kind == kernel_kind && reason@
        == field_name + " must not be empty"@
}

/// A kernel's backends are told apart by an index of one byte, whose last value stands
/// for none of them.
pub fn ensure_backends_fit(
    kernel_kind: KernelKind,
    field_name: &'static str,
    backends: &Vec<&'static str>,
) -> (r: Result<(), BuildError>)
    ensures
        match r {
            Ok(()) => backends@.len() <= NO_BACKEND,
            Err(error) => backends@.len() > NO_BACKEND && has_too_many_backends(
                error,
                kernel_kind,
                field_name@,
            ),
        },
{
    if backends.len() > NO_BACKEND as usize {
        let mut reason = String::new();
        reason.append(field_name);
        reason.append(" must not list more than 255 backends");
        assert(reason@ =~= field_name@ + " must not list more than 255 backends"@);
        return Err(BuildError::FitFailed { kind: kernel_kind, reason });
    }
    Ok(())
}

/// Whether an error says that a kernel has more candidate backends than can be told
/// apart.
pub open spec fn has_too_many_backends(
    error: BuildError,
    kernel_kind: KernelKind,
    field_name: Seq<char>,
) -> bool {
    error matches BuildError::FitFailed { kind, reason } && kind == kernel_kind && reason@
        == field_name + " must not list more than 255 backends"@
}

/// The samples of a table, cell by cell: nothing where a cell is masked or its
/// measurement cannot be held.
pub open spec fn table_samples<S: Scalar>(
    mask: Seq<bool>,
    cells: nat,
    measured: Seq<KernelMetrics<S::Wide>>,
) -> Seq<Option<Metrics4<S>>> {
    Seq::new(
        cells,
        |i: int|
            match placed_item(mask, measured, i) {
                Some(sample) => Metrics4::<S>::kept_sample(sample),
                None => None,
            },
    )
}

fn to_samples<S: Scalar>(
    mask: &Vec<bool>,
    measured: &Vec<KernelMetrics<S::Wide>>,
    cells: usize,
) -> (r:
    Vec<Option<Metrics4<S>>>)
    requires
        mask@.len() == 0 || mask@.len() == cells,
        measured@.len() == feasible_count(mask@, cells as int),
    ensures
        r@ == table_samples::<S>(mask@, cells as nat, measured@),
{
    let placed: Vec<Option<KernelMetrics<S::Wide>>> = place_feasible(measured, mask);
    let mut out: Vec<Option<Metrics4<S>>> = Vec::new();
    let mut i: usize = 0;
    while i < cells
        invariant
            i <= cells,
            placed@.len() == cells,
            out@.len() == i,
            forall|j: int|
                0 <= j < placed@.len() ==> #[trigger] placed@[j] == placed_item(
                    mask@,
                    measured@,
                    j,
                ),
            forall|j: int|
                0 <= j < i ==> #[trigger] out@[j] == (match placed_item(mask@, measured@, j) {
                    Some(sample) => Metrics4::<S>::kept_sample(sample),
                    None => None,
                }),
        decreases cells - i,
    {
        assert(placed@[i as int] == placed_item(mask@, measured@, i as int));
        let sample: Option<Metrics4<S>> = match placed[i] {
            Some(metrics) => Metrics4::keep_sample(&metrics),
            None => None,
        };
        out.push(sample);
        i += 1;
    }
    assert(out@ =~= table_samples::<S>(mask@, cells as nat, measured@));
    out
}

/// A built kernel: its configuration, the warnings of its tables and one table per
/// backend. After a dry run or an enumeration there are no tables.
pub struct Kernel<S: Scalar, K: KernelSpec> {
    pub config: K::Config,
    pub outlier_warnings: Vec<FitWarning>,
    pub backend_caches: Vec<BackendCache<S>>,
}

/// The time of a reading as backends are compared by: never negative, zero for a miss.
pub open spec fn reading_time<S: Scalar>(reading: Option<(Metrics4<S>, bool)>) -> S {
    match reading {
        Some((m, outside)) => floored(m.without_negatives().time_ms),
        None => floored(S::zero_value()),
    }
}

/// In fixed-point numbers, a value is compared by its own time, but by zero where that is
/// negative; a miss is compared by zero.
pub proof fn reading_time_is_its_time(reading: Option<(Metrics4<Fixed>, bool)>)
    ensures
        match reading {
            Some((m, outside)) => reading_time(reading).steps == if m.time_ms.steps < 0 {
                0
            } else {
                m.time_ms.steps
            },
            None => reading_time(reading).steps == 0,
        },
{
}

/// The first of the times that no other is below.
pub open spec fn fastest<S: Scalar>(times: Seq<S>) -> int
    decreases times.len(),
{
    if times.len() <= 1 {
        0
    } else {
        let best = fastest(times.drop_last());
        if ranks_below(times.last(), times[best]) {
            times.len() - 1
        } else {
            best
        }
    }
}

proof fn fastest_in_range<S: Scalar>(times: Seq<S>)
    requires
        times.len() > 0,
    ensures
        0 <= fastest(times) < times.len(),
    decreases times.len(),
{
    if times.len() > 1 {
        fastest_in_range(times.drop_last());
    }
}

/// The fastest of defined times is below all before it, and no time is below it.
pub proof fn fastest_is_least<S: Scalar>(times: Seq<S>)
    requires
        times.len() > 0,
        forall|i: int| 0 <= i < times.len() ==> !(#[trigger] times[i]).undefined(),
    ensures
        0 <= fastest(times) < times.len(),
        forall|i: int| 0 <= i < times.len() ==> !ranks_below(#[trigger] times[i], times[fastest(times)]),
        forall|i: int| 0 <= i < fastest(times) ==> ranks_below(times[fastest(times)], #[trigger] times[i]),
    decreases times.len(),
{
    if times.len() > 1 {
        let front = times.drop_last();
        assert forall|i: int| 0 <= i < front.len() implies !(#[trigger] front[i]).undefined() by {
            assert(!times[i].undefined());
        }
        fastest_is_least(front);
        let best = fastest(front);
        assert(front[best] == times[best]);
        assert forall|i: int| 0 <= i < times.len() implies !ranks_below(
            #[trigger] times[i],
            times[fastest(times)],
        ) by {
            if i < front.len() {
                assert(front[i] == times[i]);
            }
        }
        assert forall|i: int| 0 <= i < fastest(times) implies ranks_below(
            times[fastest(times)],
            #[trigger] times[i],
        ) by {
            assert(front[i] == times[i]);
            assert(!ranks_below(front[i], front[best]));
        }
    }
}

/// Whether a cost is what the table of a backend shows: a value that names the backend,
/// or a miss that names none.
pub open spec fn shows<S: Scalar>(
    leaf: LeafMetrics<S>,
    reading: Option<(Metrics4<S>, bool)>,
    backend: int,
) -> bool {
    match reading {
        Some((m, outside)) => leaf.m == m.without_negatives() && leaf.coverage.raw()
            == coverage_bits(outside) && leaf.backend_index == backend,
        None => leaf.is_miss(),
    }
}

/// The reading of a table with the backend that it is for.
fn tag_backend<S: Scalar>(
    leaf: LeafMetrics<S>,
    backend: usize,
    Ghost(reading): Ghost<Option<(Metrics4<S>, bool)>>,
) -> (r: LeafMetrics<S>)
    requires
        backend < NO_BACKEND,
        match reading {
            Some((m, outside)) => leaf.is_value(m, outside),
            None => leaf.is_miss(),
        },
    ensures
        shows(r, reading, backend as int),
        r.m == leaf.m,
{
    if leaf.coverage.bits() == CoverageFlags::no_coverage().bits() {
        leaf
    } else {
        LeafMetrics { m: leaf.m, coverage: leaf.coverage, backend_index: backend as u8 }
    }
}

/// The times at which the tables of a kernel stand for a query.
pub open spec fn reading_times<S: Scalar>(tables: Seq<BackendCache<S>>, sweep: Seq<S>) -> Seq<S> {
    Seq::new(tables.len(), |i: int| reading_time(tables[i].table().reading(sweep)))
}

impl<S: Scalar, K: KernelSpec> Kernel<S, K> {
    /// The tables, one per backend.
    pub open spec fn tables(&self) -> Seq<BackendCache<S>> {
        self.backend_caches@
    }

    pub open spec fn wf(&self) -> bool {
        &&& self.tables().len() <= NO_BACKEND
        &&& forall|i: int|
            0 <= i < self.tables().len() ==> (#[trigger] self.tables()[i]).wf()
                && self.tables()[i].table().arity() == axis_count(
                K::table(self.tables()[i].name()@),
            )
    }

    /// The cost of a query: that of the fastest backend, the first one of equals, named
    /// by its place among the kernel's tables.
    pub fn eval(&self, input: &K::Input) -> (r: LeafMetrics<S>)
        requires
            self.wf(),
            self.tables().len() > 0,
            K::answers(self.config, *input),
        ensures
            ({
                let sweep = coord_numbers::<S>(K::table_position(self.config, *input));
                let best = fastest(reading_times(self.tables(), sweep));
                0 <= best < self.tables().len() && shows(
                    r,
                    self.tables()[best].table().reading(sweep),
                    best,
                )
            }),
    {
        let coords: Vec<Ratio> = K::cache_coords(&self.config, input);
        let sweep: Vec<S> = to_numbers(&coords);
        let ghost times = reading_times(self.tables(), sweep@);
        proof {
            K::queries_fit_table(self.config, *input, self.tables()[0].name()@);
            assert(self.tables()[0].wf());
        }
        let first: LeafMetrics<S> = self.backend_caches[0].eval(&sweep);
        let mut best: LeafMetrics<S> = tag_backend(
            first,
            0,
            Ghost(self.tables()[0].table().reading(sweep@)),
        );
        let mut best_time: S = at_least_zero(best.m.time_ms);
        let mut i: usize = 1;
        assert(times.take(1).len() == 1);
        while i < self.backend_caches.len()
            invariant
                1 <= i <= self.backend_caches@.len(),
                self.wf(),
                self.tables() == self.backend_caches@,
                K::answers(self.config, *input),
                sweep@ == coord_numbers::<S>(K::table_position(self.config, *input)),
                times == reading_times(self.tables(), sweep@),
                0 <= fastest(times.take(i as int)) < i,
                best_time == times[fastest(times.take(i as int))],
                shows(
                    best,
                    self.tables()[fastest(times.take(i as int))].table().reading(sweep@),
                    fastest(times.take(i as int)),
                ),
            decreases self.backend_caches@.len() - i,
        {
            proof {
                K::queries_fit_table(self.config, *input, self.tables()[i as int].name()@);
                assert(self.tables()[i as int].wf());
                assert(times.take(i + 1).drop_last() =~= times.take(i as int));
                let b = fastest(times.take(i as int));
                assert(times.take(i as int)[b] == times[b]);
            }
            let candidate: LeafMetrics<S> = self.backend_caches[i].eval(&sweep);
            let candidate_time: S = at_least_zero(candidate.m.time_ms);
            assert(candidate_time == times[i as int]);
            if candidate_time.below(best_time) {
                best = tag_backend(
                    candidate,
                    i,
                    Ghost(self.tables()[i as int].table().reading(sweep@)),
                );
                best_time = candidate_time;
            }
            i += 1;
        }
        assert(times.take(i as int) =~= times);
        best
    }
}

/// What a build asks of the profiler: in a dry run how many of the shapes are missing,
/// else their times.
pub struct BuildRequest {
    pub counting: bool,
    pub kind: KernelKind,
    pub backend: &'static str,
    pub gpu: String,
    pub specs: Vec<ArgsPayload>,
}

/// A build on its way.
pub struct KernelBuild<S: Scalar, K: KernelSpec> {
    name: String,
    config: K::Config,
    tokens: Ghost<Seq<u32>>,
    grid: SweepGrid,
    mask: Vec<bool>,
    backends: Vec<&'static str>,
    counting: bool,
    missing: usize,
    total: usize,
    warnings: Vec<FitWarning>,
    caches: Vec<BackendCache<S>>,
    done: usize,
}

/// How a build begins.
pub enum BuildStart<S: Scalar, K: KernelSpec> {
    /// The kernel was enumerated; it has no tables.
    Recorded(Kernel<S, K>),
    /// Requests have to be answered first.
    Begun(KernelBuild<S, K>),
}

/// The backends that a kernel is built for: those that the pool sets for its name, or
/// else its own candidates.
pub open spec fn chosen_backends<C: KernelConfig>(
    bridge: PerfApiBridge,
    name: Seq<char>,
    config: C,
) -> Seq<&'static str> {
    if bridge.overrides() is Some && bridge.overrides()->0.contains_key(name) {
        bridge.overrides()->0[name]@
    } else {
        config.candidates()
    }
}

/// The backends that a kernel must have: in an enumeration its own candidates, which are
/// what is recorded, else those that it is built for.
pub open spec fn needed_backends<C: KernelConfig>(
    bridge: PerfApiBridge,
    name: Seq<char>,
    config: C,
) -> Seq<&'static str> {
    if bridge.enum_report() is Some {
        config.candidates()
    } else {
        chosen_backends(bridge, name, config)
    }
}

/// Whether building a kernel gets as far as its sweep: it has backends, and is not just
/// enumerated.
pub open spec fn is_swept<C: KernelConfig>(
    bridge: PerfApiBridge,
    name: Seq<char>,
    config: C,
) -> bool {
    bridge.enum_report() is None && 0 < chosen_backends(bridge, name, config).len() <= NO_BACKEND
}

/// Whether a kernel can be swept, and the cells of its sweep counted once per backend.
pub open spec fn can_be_swept<K: KernelSpec>(
    config: K::Config,
    tokens: Seq<u32>,
    backends: int,
) -> bool {
    let cells = cell_count(K::axes(config, tokens));
    K::admits(config) && cells <= usize::MAX && backends * cells <= usize::MAX
}

impl<S: Scalar, K: KernelSpec> KernelBuild<S, K> {
    pub closed spec fn title(&self) -> String {
        self.name
    }

    pub closed spec fn settings(&self) -> K::Config {
        self.config
    }

    /// The sweep's axes.
    pub closed spec fn points(&self) -> Seq<Seq<u32>> {
        self.grid.points()
    }

    /// How many steps of each axis make one.
    pub closed spec fn units(&self) -> Seq<u32> {
        self.grid.scale()
    }

    /// Which cells are infeasible; empty if none are.
    pub closed spec fn masked(&self) -> Seq<bool> {
        self.mask@
    }

    /// The backends that the kernel is built for.
    pub closed spec fn chosen(&self) -> Seq<&'static str> {
        self.backends@
    }

    /// Whether this is a dry run.
    pub closed spec fn is_dry(&self) -> bool {
        self.counting
    }

    /// How many backends have been answered for.
    pub closed spec fn answered(&self) -> int {
        self.done as int
    }

    /// The shapes found missing so far, in a dry run.
    pub closed spec fn missing_so_far(&self) -> int {
        self.missing as int
    }

    /// The tables so far.
    pub closed spec fn tables(&self) -> Seq<BackendCache<S>> {
        self.caches@
    }

    /// The warnings so far.
    pub closed spec fn warned(&self) -> Seq<FitWarning> {
        self.warnings@
    }

    /// The number of cells.
    pub open spec fn cells(&self) -> nat {
        cell_count(self.points())
    }

    /// The number of shapes asked about per backend.
    pub open spec fn asked(&self) -> int {
        feasible_count(self.masked(), self.cells() as int)
    }

    pub closed spec fn wf(&self) -> bool {
        &&& K::admits(self.config)
        &&& self.grid.points() == K::axes(self.config, self.tokens@)
        &&& self.grid.scale() == K::units(self.grid.points())
        &&& self.cells() <= usize::MAX
        &&& self.mask@.len() == 0 || self.mask@.len() == self.cells()
        &&& self.done <= self.backends@.len() <= NO_BACKEND
        &&& self.backends@.len() * self.cells() <= usize::MAX
        &&& 0 <= self.asked() <= self.cells()
        &&& self.total == self.done * self.asked() || !self.counting
        &&& self.caches@.len() == (if self.counting {
            0
        } else {
            self.done as nat
        })
        &&& forall|i: int|
            0 <= i < self.caches@.len() ==> (#[trigger] self.caches@[i]).wf()
                && self.caches@[i].name() == self.backends@[i]
                && self.caches@[i].table().arity() == axis_count(K::table(self.backends@[i]@))
    }

    /// All but the progress of the build is as before.
    pub open spec fn continues(&self, before: Self) -> bool {
        &&& self.title() == before.title()
        &&& self.settings() == before.settings()
        &&& self.points() == before.points()
        &&& self.units() == before.units()
        &&& self.masked() == before.masked()
        &&& self.chosen() == before.chosen()
        &&& self.is_dry() == before.is_dry()
    }

    /// Begin to build a kernel. In an enumeration the kernel is recorded and nothing is
    /// asked of the profiler.
    pub fn begin(
        name: String,
        config: K::Config,
        tokens: &Vec<u32>,
        bridge: &mut PerfApiBridge,
    ) -> (r: Result<BuildStart<S, K>, BuildError>)
        requires
            old(bridge).wf(),
            is_swept(*old(bridge), name@, config) ==> can_be_swept::<K>(
                config,
                tokens@,
                chosen_backends(*old(bridge), name@, config).len() as int,
            ),
        ensures
            final(bridge).wf(),
            final(bridge).missing_report() == old(bridge).missing_report(),
            final(bridge).overrides() == old(bridge).overrides(),
            final(bridge).pool() == old(bridge).pool(),
            match r {
                Err(error) => {
                    let needed = needed_backends(*old(bridge), name@, config).len();
                    &&& needed == 0 && has_no_backends(error, K::KIND, K::Config::BACKENDS_FIELD@)
                        || needed > NO_BACKEND && has_too_many_backends(
                        error,
                        K::KIND,
                        K::Config::BACKENDS_FIELD@,
                    )
                    &&& final(bridge).enum_report() == old(bridge).enum_report()
                },
                Ok(BuildStart::Recorded(kernel)) => {
                    &&& 0 < config.candidates().len() <= NO_BACKEND
                    &&& old(bridge).enum_report() is Some
                    &&& final(bridge).enum_report() is Some
                    &&& kernel.wf()
                    &&& kernel.config == config
                    &&& kernel.tables().len() == 0
                    &&& kernel.outlier_warnings@.len() == 0
                    &&& final(bridge).enum_report()->0.len() == old(bridge).enum_report()->0.len()
                        + 1
                    &&& final(bridge).enum_report()->0.drop_last() == old(bridge).enum_report()->0
                    &&& {
                        let entry = final(bridge).enum_report()->0.last();
                        &&& entry.pool@ == old(bridge).tag()
                        &&& entry.name == name
                        &&& entry.kind == K::KIND
                        &&& entry.gpu@ == config.gpu()
                        &&& entry.compute_dtype == config.compute()
                        &&& entry.kv_dtype == config.kv()
                        &&& fields_view(entry.config@) == config.description()
                        &&& strings(entry.backends@) == texts(config.candidates())
                    }
                },
                Ok(BuildStart::Begun(build)) => {
                    &&& 0 < chosen_backends(*old(bridge), name@, config).len() <= NO_BACKEND
                    &&& old(bridge).enum_report() is None
                    &&& final(bridge).enum_report() is None
                    &&& build.wf()
                    &&& build.title() == name
                    &&& build.settings() == config
                    &&& build.points() == K::axes(config, tokens@)
                    &&& build.units() == K::units(build.points())
                    &&& build.chosen() == chosen_backends(*old(bridge), name@, config)
                    &&& build.is_dry() == (old(bridge).missing_report() is Some)
                    &&& build.answered() == 0
                    &&& build.missing_so_far() == 0
                    &&& build.tables().len() == 0
                    &&& build.warned().len() == 0
                    &&& !K::masks() ==> build.masked().len() == 0
                    &&& K::masks() ==> build.masked().len() == build.cells()
                    &&& K::masks() ==> forall|i: int|
                        0 <= i < build.masked().len() ==> #[trigger] build.masked()[i]
                            == K::infeasible(config, cell_at(build.points(), i as nat))
                },
            },
    {
        let override_backends: Option<Vec<&'static str>> = if bridge.is_enumerate() {
            None
        } else {
            bridge.backend_override_for(name.as_str())
        };
        let backends: Vec<&'static str> = match override_backends {
            Some(backends) => backends,
            None => copy_names(config.backends()),
        };
        let checked: Result<(), BuildError> = ensure_has_backends(
            K::KIND,
            K::Config::BACKENDS_FIELD,
            &backends,
        );
        if let Err(error) = checked {
            return Err(error);
        }
        let checked: Result<(), BuildError> = ensure_backends_fit(
            K::KIND,
            K::Config::BACKENDS_FIELD,
            &backends,
        );
        if let Err(error) = checked {
            return Err(error);
        }
        if bridge.is_enumerate() {
            bridge.record_enum(
                name,
                K::KIND,
                config.gpu_name(),
                config.compute_dtype(),
                config.kv_dtype(),
                config.describe_config(),
                config.backends(),
            );
            return Ok(
                BuildStart::Recorded(
                    Kernel {
                        config,
                        outlier_warnings: Vec::new(),
                        backend_caches: Vec::new(),
                    },
                ),
            );
        }
        let grid: SweepGrid = K::sweep_grid(&config, tokens);
        proof {
            assert forall|i: nat| i < cell_count(grid.points()) implies K::judges(
                config,
                #[trigger] cell_at(grid.points(), i),
            ) by {
                K::sweep_is_judged(config, tokens@, i);
            }
        }
        let mask: Vec<bool> = K::infeasible_mask(&config, &grid);
        let cells: usize = grid.len();
        let asked: usize = count_feasible(&mask, cells);
        let counting: bool = bridge.is_dry_run();
        assert(0 * asked == 0) by (nonlinear_arith);
        Ok(
            BuildStart::Begun(
                KernelBuild {
                    name,
                    config,
                    tokens: Ghost(tokens@),
                    grid,
                    mask,
                    backends,
                    counting,
                    missing: 0,
                    total: 0,
                    warnings: Vec::new(),
                    caches: Vec::new(),
                    done: 0,
                },
            ),
        )
    }

    /// The backend that the next request is for; none once all have been answered for.
    pub fn next_backend(&self) -> (r: Option<&'static str>)
        requires
            self.wf(),
        ensures
            match r {
                Some(backend) => 0 <= self.answered() < self.chosen().len() && backend
                    == self.chosen()[self.answered()],
                None => self.answered() == self.chosen().len(),
            },
    {
        if self.done < self.backends.len() {
            Some(self.backends[self.done])
        } else {
            None
        }
    }

    /// The warnings so far.
    pub fn warnings(&self) -> (r: &Vec<FitWarning>)
        ensures
            r@ == self.warned(),
    {
        &self.warnings
    }

    /// The table that was fitted last.
    pub fn last_table(&self) -> (r: Option<&BackendCache<S>>)
        ensures
            match r {
                Some(table) => self.tables().len() > 0 && *table == self.tables().last() && (self.wf()
                    ==> table.wf()),
                None => self.tables().len() == 0,
            },
    {
        if self.caches.len() == 0 {
            None
        } else {
            Some(&self.caches[self.caches.len() - 1])
        }
    }

    /// The request about the next backend, given the shapes of all cells: infeasible
    /// cells are not asked about.
    pub fn request(&self, specs: Vec<ArgsPayload>) -> (r: BuildRequest)
        requires
            self.wf(),
            self.answered() < self.chosen().len(),
            specs@.len() == self.cells(),
        ensures
            r.counting == self.is_dry(),
            r.kind@ == K::profiled_as(),
            r.backend == self.chosen()[self.answered()],
            r.gpu@ == self.settings().gpu(),
            r.specs@ == feasible_items(specs@, self.masked()),
    {
        BuildRequest {
            counting: self.counting,
            kind: K::profile_kind(),
            backend: self.backends[self.done],
            gpu: self.config.gpu_name().to_owned(),
            specs: drop_infeasible(specs, &self.mask),
        }
    }

    /// Take the answer to a counting request.
    pub fn counted(self, reply: Result<usize, PerfApiError>) -> (r: Result<Self, BuildError>)
        requires
            self.wf(),
            self.is_dry(),
            self.answered() < self.chosen().len(),
            reply matches Ok(missing) ==> self.missing_so_far() + missing <= usize::MAX,
        ensures
            match (reply, r) {
                (Ok(missing), Ok(next)) => {
                    &&& next.wf()
                    &&& next.continues(self)
                    &&& next.answered() == self.answered() + 1
                    &&& next.missing_so_far() == self.missing_so_far() + missing
                    &&& next.tables() == self.tables()
                    &&& next.warned() == self.warned()
                },
                (Err(error), Err(failure)) => failure == BuildError::of_perf_api(
                    K::KIND,
                    self.chosen()[self.answered()],
                    error,
                ),
                _ => false,
            },
    {
        match reply {
            Ok(missing) => {
                let mut next: Self = self;
                let asked: usize = count_feasible(&next.mask, next.grid.len());
                proof {
                    let done = self.done as int;
                    let all = self.backends@.len() as int;
                    let cells = self.cells() as int;
                    assert(done * asked + asked == (done + 1) * asked) by (nonlinear_arith);
                    assert((done + 1) * asked <= all * cells) by (nonlinear_arith)
                        requires
                            0 <= done + 1 <= all,
                            0 <= asked <= cells,
                    ;
                }
                next.missing = next.missing + missing;
                next.total = next.total + asked;
                assert(next.done < next.backends.len());
                next.done = next.done + 1;
                Ok(next)
            },
            Err(error) => Err(
                BuildError::from_perf_api(K::KIND, self.backends[self.done], error),
            ),
        }
    }

    /// Take the answer to a request for times, and fit the backend's table to it.
    pub fn measured(self, reply: Result<Vec<KernelMetrics<S::Wide>>, PerfApiError>) -> (r: Result<
        Self,
        BuildError,
    >)
        requires
            self.wf(),
            !self.is_dry(),
            self.answered() < self.chosen().len(),
            reply matches Ok(samples) ==> samples@.len() == self.asked(),
        ensures
            match (reply, r) {
                (Ok(samples), Ok(next)) => {
                    &&& next.wf()
                    &&& next.continues(self)
                    &&& next.answered() == self.answered() + 1
                    &&& next.missing_so_far() == self.missing_so_far()
                    &&& next.tables().len() == self.tables().len() + 1
                    &&& next.tables().drop_last() == self.tables()
                    &&& next.tables().last().name() == self.chosen()[self.answered()]
                    &&& self.warned().is_prefix_of(next.warned())
                    &&& is_fitted(
                        K::table(self.chosen()[self.answered()]@),
                        sweep_numbers::<S::Wide>(self.points(), self.units()),
                        table_samples::<S>(self.masked(), self.cells(), samples@),
                        next.tables().last().table(),
                        next.warned().skip(self.warned().len() as int),
                    )
                },
                (Err(error), Err(failure)) => failure == BuildError::of_perf_api(
                    K::KIND,
                    self.chosen()[self.answered()],
                    error,
                ),
                _ => false,
            },
    {
        let backend: &'static str = self.backends[self.done];
        let samples: Vec<KernelMetrics<S::Wide>> = match reply {
            Ok(samples) => samples,
            Err(error) => {
                return Err(BuildError::from_perf_api(K::KIND, backend, error));
            },
        };
        proof {
            K::sweep_fits_table(self.config, self.tokens@, backend@);
        }
        let kind: CacheKind = K::cache_kind(backend);
        let cells: usize = self.grid.len();
        let axes: Vec<Vec<S::Wide>> = grid_axes(&self.grid);
        let placed: Vec<Option<Metrics4<S>>> = to_samples(&self.mask, &samples, cells);
        proof {
            table_takes_sweep(kind, axes@, self.grid.points(), self.grid.scale(), placed@);
        }
        match BackendCache::fit(K::KIND, backend, kind, &axes, &placed) {
            Ok((cache, warnings)) => {
                let mut next: Self = self;
                let mut found: Vec<FitWarning> = warnings;
                let ghost before = next.warnings@;
                next.caches.push(cache);
                next.warnings.append(&mut found);
                assert(next.done < next.backends.len());
                next.done = next.done + 1;
                proof {
                    assert(next.caches@.drop_last() =~= self.caches@);
                    assert(next.warnings@.skip(before.len() as int) =~= warnings@);
                }
                Ok(next)
            },
            Err(error) => Err(error),
        }
    }

    /// End a build once every backend has been answered for; a dry run is reported.
    pub fn finish(self, bridge: &mut PerfApiBridge) -> (r: Kernel<S, K>)
        requires
            self.wf(),
            self.answered() == self.chosen().len(),
            old(bridge).wf(),
        ensures
            r.wf(),
            r.config == self.settings(),
            r.tables() == self.tables(),
            r.outlier_warnings@ == self.warned(),
            final(bridge).wf(),
            final(bridge).enum_report() == old(bridge).enum_report(),
            final(bridge).overrides() == old(bridge).overrides(),
            final(bridge).pool() == old(bridge).pool(),
            match old(bridge).missing_report() {
                Some(report) => if self.is_dry() {
                    final(bridge).missing_report() == Some(
                        report.push(
                            KernelMissing {
                                name: self.title(),
                                kind: K::KIND,
                                missing: self.missing_so_far() as usize,
                                total: (self.chosen().len() * self.asked()) as usize,
                            },
                        ),
                    )
                } else {
                    final(bridge).missing_report() == Some(report)
                },
                None => final(bridge).missing_report() is None,
            },
    {
        if self.counting {
            bridge.record_missing(self.name, K::KIND, self.missing, self.total);
        }
        Kernel {
            config: self.config,
            outlier_warnings: self.warnings,
            backend_caches: self.caches,
        }
    }
}

impl<S: Scalar, K: CellPayloads> KernelBuild<S, K> {
    /// The next request; none once every backend has been answered for. All of its
    /// shapes name the backend that they are for.
    pub fn next_request(&self) -> (r: Option<BuildRequest>)
        requires
            self.wf(),
            K::enumerates(self.settings()),
        ensures
            match r {
                None => self.answered() == self.chosen().len(),
                Some(request) => {
                    &&& 0 <= self.answered() < self.chosen().len()
                    &&& request.counting == self.is_dry()
                    &&& request.kind@ == K::profiled_as()
                    &&& request.backend == self.chosen()[self.answered()]
                    &&& request.gpu@ == self.settings().gpu()
                    &&& payloads_wf(request.specs@)
                    &&& all_name(request.specs@, request.backend@)
                    &&& exists|specs: Seq<ArgsPayload>|
                        specs.len() == self.cells() && request.specs@ == #[trigger] feasible_items(
                            specs,
                            self.masked(),
                        ) && forall|i: int|
                            0 <= i < specs.len() ==> (#[trigger] specs[i])@ == K::fields(
                                self.settings(),
                                cell_at(self.points(), i as nat),
                                request.backend@,
                            )
                },
            },
    {
        let backend: &'static str = match self.next_backend() {
            Some(backend) => backend,
            None => {
                return None;
            },
        };
        proof {
            assert forall|i: nat| i < cell_count(self.grid.points()) implies K::covers(
                self.config,
                #[trigger] cell_at(self.grid.points(), i),
            ) by {
                K::sweep_is_covered(self.config, self.tokens@, i);
            }
        }
        let specs: Vec<ArgsPayload> = K::enumerate(&self.config, &self.grid, backend);
        let ghost all = specs@;
        let request: BuildRequest = self.request(specs);
        proof {
            let asked = request.specs@;
            kept_from_items(all, self.masked());
            assert forall|i: int| 0 <= i < asked.len() implies (#[trigger] asked[i]).wf()
                && payload_backend(asked[i]@) == Some(backend@) by {
                if self.masked().len() == 0 {
                    assert(asked[i] == all[i]);
                    K::fields_name_backend(
                        self.config,
                        cell_at(self.grid.points(), i as nat),
                        backend@,
                    );
                } else {
                    assert(asked[i] == kept(all, self.masked())[i]);
                    let j = choose|j: int| 0 <= j < all.len() && all[j] == asked[i];
                    assert(all[j].wf());
                    K::fields_name_backend(
                        self.config,
                        cell_at(self.grid.points(), j as nat),
                        backend@,
                    );
                }
            }
            assert(request.specs@ == feasible_items(all, self.masked()));
        }
        Some(request)
    }
}

/// A sweep that fits a table, and its samples, can be fitted.
proof fn table_takes_sweep<S: Scalar>(
    kind: CacheKind,
    axes: Seq<Vec<S::Wide>>,
    points: Seq<Seq<u32>>,
    units: Seq<u32>,
    samples: Seq<Option<Metrics4<S>>>,
)
    requires
        fits_table(kind, points, units),
        axis_points(axes) == sweep_numbers::<S::Wide>(points, units),
        forall|i: int, j: int|
            0 <= i < axes.len() && 0 <= j < axes[i]@.len() ==> !(#[trigger] axes[i]@[j]).undefined(),
        samples.len() == cell_count(points) <= usize::MAX,
    ensures
        !unimplemented_kind(kind),
        sweep_fits_kind(kind, axis_points(axes), samples),
{
    let numbers = axis_points(axes);
    assert(numbers.len() == points.len());
    assert forall|i: int| 0 <= i < numbers.len() implies all_points_defined(#[trigger] numbers[i]) by {
        assert(numbers[i] == axes[i]@);
    }
    assert forall|i: int| 0 <= i < numbers.len() implies #[trigger] numbers[i].len()
        == points[i].len() by {
        assert(numbers[i] == axis_numbers::<S::Wide>(points[i], units[i]));
    }
    match kind {
        CacheKind::Cache1DLinear => {
            count_of_line(points);
            assert(numbers[0].len() == points[0].len());
        },
        CacheKind::Cache2DLinear(policy) => {
            count_of_plane(points);
            assert(numbers[0].len() == points[0].len());
            assert(numbers[1].len() == points[1].len());
            let (a, b) = (points[0].len(), points[1].len());
            assert(a > 0 && b > 0 ==> a * b > 0) by (nonlinear_arith);
        },
        CacheKind::Cache3DLinear => {
            count_of_block(points);
            assert(numbers[0].len() == points[0].len());
            assert(numbers[1].len() == points[1].len());
            assert(numbers[2].len() == points[2].len());
            let (a, b, c) = (points[0].len(), points[1].len(), points[2].len());
            assert(b * c <= a * b * c) by (nonlinear_arith)
                requires
                    a >= 1,
            ;
        },
        _ => {},
    }
}

} // verus!
