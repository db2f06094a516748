//! What every kernel kind declares, and what follows for all of them.

use crate::bridge::payload::{dtype_text, payload_backend, ArgsPayload, KernelKind, WireValue};
use crate::cache::{axis_count, CacheKind, Extrapolation};
use crate::kernels::config::{fabric_text, ConfigTerm, KernelConfig};
use crate::sweep::{cell_at, cell_count, whole, Ratio, SweepGrid};
use vstd::prelude::*;

verus! {

/// A runtime query and the coordinates it projects to.
pub trait SweepCoords: Sized {
    /// Whether the query describes a shape that can run.
    spec fn well_shaped(&self) -> bool;

    /// The query's position on the sweep axes.
    spec fn position(&self) -> Seq<Ratio>;

    /// The names of the coordinates.
    spec fn axis_names() -> Seq<Seq<char>>;

    fn is_well_shaped(&self) -> (r: bool)
        ensures
            r == self.well_shaped(),
    ;

    fn coords(&self) -> (r: Vec<Ratio>)
        requires
            self.well_shaped(),
        ensures
            r@ == self.position(),
    ;

    fn coord_field_names() -> (r: Vec<&'static str>)
        ensures
            r@.map_values(|name: &'static str| name@) == Self::axis_names(),
    ;
}

/// A grid whose axes all hold whole numbers.
pub open spec fn whole_units(axes: Seq<Seq<u32>>) -> Seq<u32> {
    Seq::new(axes.len(), |i: int| 1u32)
}

/// Whether a table of a kind can be built over these axes: one per axis of the table,
/// each with a unit, and none of them empty where the table needs a cell.
pub open spec fn fits_table(kind: CacheKind, axes: Seq<Seq<u32>>, units: Seq<u32>) -> bool {
    &&& axes.len() == axis_count(kind)
    &&& units.len() == axes.len()
    &&& forall|i: int| 0 <= i < units.len() ==> #[trigger] units[i] > 0
    &&& match kind {
        CacheKind::Cache1DLinear => true,
        CacheKind::Cache2DLinear(policy) => policy == Extrapolation::Weighted ==> axes[0].len() > 0
            && axes[1].len() > 0,
        CacheKind::Cache3DLinear => axes[0].len() > 0,
        _ => false,
    }
}

/// Whether coordinates are those of a cell, on axes that count in these units.
pub open spec fn stands_at(position: Seq<Ratio>, cell: Seq<u32>, units: Seq<u32>) -> bool {
    &&& position.len() == cell.len()
    &&& forall|i: int|
        0 <= i < cell.len() ==> (#[trigger] position[i]).denominator > 0 && position[i].numerator
            * units[i] == cell[i] * position[i].denominator
}

/// Coordinates whose values are those of a cell stand at it, where the axes count in ones.
pub proof fn stands_on_whole_units(position: Seq<Ratio>, cell: Seq<u32>, units: Seq<u32>)
    requires
        position.len() == cell.len() == units.len(),
        forall|i: int|
            0 <= i < cell.len() ==> #[trigger] position[i] == whole(cell[i] as int) || (
            position[i].denominator > 0 && position[i].numerator == cell[i]
                * position[i].denominator),
        forall|i: int| 0 <= i < units.len() ==> #[trigger] units[i] == 1,
    ensures
        stands_at(position, cell, units),
{
    assert forall|i: int| 0 <= i < cell.len() implies (#[trigger] position[i]).denominator > 0
        && position[i].numerator * units[i] == cell[i] * position[i].denominator by {
        assert(units[i] == 1);
        let numerator = position[i].numerator as int;
        let denominator = position[i].denominator as int;
        let unit = units[i] as int;
        let point = cell[i] as int;
        assert(numerator * unit == numerator) by (nonlinear_arith)
            requires
                unit == 1,
        ;
        assert(denominator == 1 ==> point * denominator == point) by (nonlinear_arith);
    }
}

/// A coordinate that stands at a point of an axis that counts in ones has its value.
pub proof fn standing_is_value(position: Seq<Ratio>, cell: Seq<u32>, units: Seq<u32>, i: int)
    requires
        stands_at(position, cell, units),
        0 <= i < cell.len(),
        units[i] == 1,
    ensures
        position[i].denominator > 0,
        position[i].numerator == cell[i] * position[i].denominator,
        position[i].denominator == 1 ==> position[i].numerator == cell[i],
{
    let numerator = position[i].numerator as int;
    let denominator = position[i].denominator as int;
    let unit = units[i] as int;
    let point = cell[i] as int;
    assert(numerator * unit == numerator) by (nonlinear_arith)
        requires
            unit == 1,
    ;
    assert(denominator == 1 ==> point * denominator == point) by (nonlinear_arith);
}

/// The number of a wire field.
pub open spec fn number_at(fields: Map<Seq<char>, WireValue>, name: Seq<char>) -> nat {
    fields[name]->Number_0
}

/// The list of numbers of a wire field.
pub open spec fn numbers_at(fields: Map<Seq<char>, WireValue>, name: Seq<char>) -> Seq<u32> {
    fields[name]->Numbers_0
}

/// The list of pairs of a wire field.
pub open spec fn pairs_at(fields: Map<Seq<char>, WireValue>, name: Seq<char>) -> Seq<(u32, u32)> {
    fields[name]->Pairs_0
}

/// The text of a wire field.
pub open spec fn text_at(fields: Map<Seq<char>, WireValue>, name: Seq<char>) -> Seq<char> {
    fields[name]->Text_0
}

/// Whether a wire value says what a configuration value says.
pub open spec fn says(value: WireValue, term: ConfigTerm) -> bool {
    match (value, term) {
        (WireValue::Number(a), ConfigTerm::Number(b)) => a == b,
        (WireValue::Number(a), ConfigTerm::Dimension(b)) => a == b.fold() as nat,
        (WireValue::Text(a), ConfigTerm::Text(b)) => a == b,
        (WireValue::Text(a), ConfigTerm::Precision(b)) => a == dtype_text(b),
        (WireValue::Text(a), ConfigTerm::Link(b)) => a == fabric_text(b),
        (WireValue::Flag(a), ConfigTerm::Flag(b)) => a == b,
        _ => false,
    }
}

/// Whether wire fields carry a field of a configuration under its own name.
pub open spec fn carries(
    fields: Map<Seq<char>, WireValue>,
    entry: (Seq<char>, ConfigTerm),
) -> bool {
    fields.contains_key(entry.0) && says(fields[entry.0], entry.1)
}

/// A kernel kind: its sweep and its table.
pub trait KernelSpec: Sized {
    type Config: KernelConfig;

    type Input: SweepCoords;

    const KIND: KernelKind;

    /// Whether the kernel can be swept under this configuration.
    spec fn admits(config: Self::Config) -> bool;

    /// The axes of the sweep; `tokens` is the token axis shared by all kernels.
    spec fn axes(config: Self::Config, tokens: Seq<u32>) -> Seq<Seq<u32>>;

    /// How many steps of each axis make one.
    spec fn units(axes: Seq<Seq<u32>>) -> Seq<u32>;

    /// The table that samples of a backend go into.
    spec fn table(backend: Seq<char>) -> CacheKind;

    /// Whether the kernel leaves out cells of its grid.
    spec fn masks() -> bool;

    /// Whether a coordinate tuple is a cell that the kernel can judge.
    spec fn judges(config: Self::Config, cell: Seq<u32>) -> bool;

    /// Whether a cell is no shape that can be profiled.
    spec fn infeasible(config: Self::Config, cell: Seq<u32>) -> bool;

    /// Where a query stands in the table.
    spec fn table_position(config: Self::Config, input: Self::Input) -> Seq<Ratio>;

    /// Whether a query can be looked up.
    spec fn answers(config: Self::Config, input: Self::Input) -> bool;

    fn can_sweep(config: &Self::Config) -> (r: bool)
        ensures
            r == Self::admits(*config),
    ;

    fn sweep_grid(config: &Self::Config, tokens: &Vec<u32>) -> (r: SweepGrid)
        requires
            Self::admits(*config),
        ensures
            r.points() == Self::axes(*config, tokens@),
            r.scale() == Self::units(r.points()),
    ;

    fn cache_kind(backend: &str) -> (r: CacheKind)
        ensures
            r == Self::table(backend@),
    ;

    fn has_mask() -> (r: bool)
        ensures
            r == Self::masks(),
    ;

    fn is_infeasible(config: &Self::Config, cell: &Vec<u32>) -> (r: bool)
        requires
            Self::judges(*config, cell@),
        ensures
            r == Self::infeasible(*config, cell@),
    ;

    fn can_answer(config: &Self::Config, input: &Self::Input) -> (r: bool)
        ensures
            r == Self::answers(*config, *input),
    ;

    fn cache_coords(config: &Self::Config, input: &Self::Input) -> (r: Vec<Ratio>)
        requires
            Self::answers(*config, *input),
        ensures
            r@ == Self::table_position(*config, *input),
    ;

    /// The sweep fits the table of every backend.
    proof fn sweep_fits_table(config: Self::Config, tokens: Seq<u32>, backend: Seq<char>)
        requires
            Self::admits(config),
        ensures
            fits_table(
                Self::table(backend),
                Self::axes(config, tokens),
                Self::units(Self::axes(config, tokens)),
            ),
    ;

    /// Every cell of the sweep can be judged.
    proof fn sweep_is_judged(config: Self::Config, tokens: Seq<u32>, index: nat)
        requires
            Self::admits(config),
            index < cell_count(Self::axes(config, tokens)),
        ensures
            Self::judges(config, cell_at(Self::axes(config, tokens), index)),
    ;

    /// A query has one coordinate per axis of every backend's table.
    proof fn queries_fit_table(config: Self::Config, input: Self::Input, backend: Seq<char>)
        requires
            Self::answers(config, input),
        ensures
            Self::table_position(config, input).len() == axis_count(Self::table(backend)),
    ;

    /// The kind that the kernel's shapes are profiled under: its own, unless it shares
    /// the rows of another kind.
    open spec fn profiled_as() -> Seq<char> {
        Self::KIND@
    }

    /// The profiler functions that measure the kernel go by this name.
    fn profile_kind() -> (r: KernelKind)
        ensures
            r@ == Self::profiled_as(),
    ;

    /// Per cell in row-major order, whether it is infeasible; empty for a kernel
    /// that leaves out no cells.
    fn infeasible_mask(config: &Self::Config, grid: &SweepGrid) -> (r: Vec<bool>)
        requires
            cell_count(grid.points()) <= usize::MAX,
            forall|i: nat|
                i < cell_count(grid.points()) ==> Self::judges(
                    *config,
                    #[trigger] cell_at(grid.points(), i),
                ),
        ensures
            !Self::masks() ==> r@.len() == 0,
            Self::masks() ==> r@.len() == cell_count(grid.points()),
            Self::masks() ==> forall|i: int|
                0 <= i < r@.len() ==> #[trigger] r@[i] == Self::infeasible(
                    *config,
                    cell_at(grid.points(), i as nat),
                ),
    {
        let mut mask: Vec<bool> = Vec::new();
        if !Self::has_mask() {
            return mask;
        }
        let count: usize = grid.len();
        let mut i: usize = 0;
        while i < count
            invariant
                i <= count,
                count == cell_count(grid.points()),
                mask@.len() == i,
                forall|j: nat|
                    j < cell_count(grid.points()) ==> Self::judges(
                        *config,
                        #[trigger] cell_at(grid.points(), j),
                    ),
                forall|j: int|
                    0 <= j < i ==> #[trigger] mask@[j] == Self::infeasible(
                        *config,
                        cell_at(grid.points(), j as nat),
                    ),
            decreases count - i,
        {
            let cell: Vec<u32> = grid.cell(i);
            mask.push(Self::is_infeasible(config, &cell));
            i += 1;
        }
        mask
    }
}

/// A kernel kind whose wire payload follows from the configuration and the cell.
pub trait CellPayloads: KernelSpec {
    /// Whether a coordinate tuple is a cell that the kernel can enumerate.
    spec fn covers(config: Self::Config, cell: Seq<u32>) -> bool;

    /// Whether the cells of this configuration can be enumerated.
    spec fn enumerates(config: Self::Config) -> bool;

    /// The wire fields of a cell.
    spec fn fields(config: Self::Config, cell: Seq<u32>, backend: Seq<char>) -> Map<
        Seq<char>,
        WireValue,
    >;

    fn can_enumerate(config: &Self::Config) -> (r: bool)
        ensures
            r == Self::enumerates(*config),
    ;

    fn cell_payload(config: &Self::Config, cell: &Vec<u32>, backend: &str) -> (r: ArgsPayload)
        requires
            Self::covers(*config, cell@),
        ensures
            r.wf(),
            r@ == Self::fields(*config, cell@, backend@),
    ;

    /// Every cell of the sweep can be enumerated.
    proof fn sweep_is_covered(config: Self::Config, tokens: Seq<u32>, index: nat)
        requires
            Self::admits(config),
            Self::enumerates(config),
            index < cell_count(Self::axes(config, tokens)),
        ensures
            Self::covers(config, cell_at(Self::axes(config, tokens), index)),
    ;

    /// The wire fields of a cell name the backend that they are for.
    proof fn fields_name_backend(config: Self::Config, cell: Seq<u32>, backend: Seq<char>)
        ensures
            payload_backend(Self::fields(config, cell, backend)) == Some(backend),
    ;

    /// Whether wire fields describe the launch that a query is about.
    spec fn describes(
        config: Self::Config,
        fields: Map<Seq<char>, WireValue>,
        input: Self::Input,
    ) -> bool;

    /// Whether a cell that is not left out is the shape of a launch.
    spec fn occurs(config: Self::Config, cell: Seq<u32>) -> bool;

    /// The names of the configuration that the wire fields do not carry as they are.
    spec fn kept_back() -> Set<Seq<char>>;

    /// A cell is profiled with a launch that is looked up at that cell: a query about the
    /// launch that the wire fields describe projects to the cell's own coordinates.
    proof fn payload_stands_at_its_cell(
        config: Self::Config,
        tokens: Seq<u32>,
        index: nat,
        backend: Seq<char>,
        input: Self::Input,
    )
        requires
            Self::admits(config),
            Self::enumerates(config),
            index < cell_count(Self::axes(config, tokens)),
            !Self::infeasible(config, cell_at(Self::axes(config, tokens), index)),
            Self::occurs(config, cell_at(Self::axes(config, tokens), index)),
            Self::describes(
                config,
                Self::fields(config, cell_at(Self::axes(config, tokens), index), backend),
                input,
            ),
        ensures
            Self::answers(config, input),
            stands_at(
                Self::table_position(config, input),
                cell_at(Self::axes(config, tokens), index),
                Self::units(Self::axes(config, tokens)),
            ),
    ;

    /// A cell is profiled under the configuration that describes the kernel: every field
    /// of the description is carried under its own name, but for those kept back.
    proof fn payload_carries_config(
        config: Self::Config,
        cell: Seq<u32>,
        backend: Seq<char>,
        i: int,
    )
        requires
            0 <= i < config.description().len(),
        ensures
            Self::kept_back().contains(config.description()[i].0) || carries(
                Self::fields(config, cell, backend),
                config.description()[i],
            ),
    ;

    /// Kernels that are described alike are profiled alike: over the same cells, with the
    /// same of them left out, and each with the same wire fields.
    proof fn described_alike_is_profiled_alike(
        a: Self::Config,
        b: Self::Config,
        tokens: Seq<u32>,
        cell: Seq<u32>,
        backend: Seq<char>,
    )
        requires
            a.description() == b.description(),
        ensures
            Self::admits(a) == Self::admits(b),
            Self::axes(a, tokens) == Self::axes(b, tokens),
            Self::infeasible(a, cell) == Self::infeasible(b, cell),
            Self::fields(a, cell, backend) == Self::fields(b, cell, backend),
    ;

    /// The wire payload of every cell, in row-major order.
    fn enumerate(config: &Self::Config, grid: &SweepGrid, backend: &str) -> (r: Vec<ArgsPayload>)
        requires
            cell_count(grid.points()) <= usize::MAX,
            forall|i: nat|
                i < cell_count(grid.points()) ==> Self::covers(
                    *config,
                    #[trigger] cell_at(grid.points(), i),
                ),
        ensures
            r@.len() == cell_count(grid.points()),
            forall|i: int|
                0 <= i < r@.len() ==> (#[trigger] r@[i]).wf() && r@[i]@ == Self::fields(
                    *config,
                    cell_at(grid.points(), i as nat),
                    backend@,
                ),
    {
        let mut out: Vec<ArgsPayload> = Vec::new();
        let count: usize = grid.len();
        let mut i: usize = 0;
        while i < count
            invariant
                i <= count,
                count == cell_count(grid.points()),
                out@.len() == i,
                forall|j: nat|
                    j < cell_count(grid.points()) ==> Self::covers(
                        *config,
                        #[trigger] cell_at(grid.points(), j),
                    ),
                forall|j: int|
                    0 <= j < i ==> (#[trigger] out@[j]).wf() && out@[j]@ == Self::fields(
                        *config,
                        cell_at(grid.points(), j as nat),
                        backend@,
                    ),
            decreases count - i,
        {
            let cell: Vec<u32> = grid.cell(i);
            out.push(Self::cell_payload(config, &cell, backend));
            i += 1;
        }
        out
    }
}

} // verus!
