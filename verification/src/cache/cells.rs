//! The cells of a table: gathering them from samples, and scanning them for outliers.
//!
//! Cells stand in row-major order. A cell whose sample was dropped holds nothing.

use crate::cache::interp::Metrics4;
use crate::cache::scalar::Scalar;
use crate::cache::OutlierKind;
use vstd::prelude::*;

verus! {

/// What was found wrong while fitting a table; cells go by their place in it.
#[derive(Clone, Copy, Debug, PartialEq, Eq, Hash, Structural)]
pub enum FitWarning {
    /// The sample of a cell was not finite or negative, and was dropped.
    Dropped { cell: usize },
    /// Along an axis, the time of a cell falls short of the one before it.
    Break { axis: usize, before: usize, after: usize },
}

impl FitWarning {
    /// The kind under which the warning is reported.
    pub fn kind(&self) -> (r: OutlierKind)
        ensures
            r == (match *self {
                FitWarning::Dropped { .. } => OutlierKind::NonFinite,
                FitWarning::Break { .. } => OutlierKind::MonotonicityBreak,
            }),
    {
        match self {
            FitWarning::Dropped { .. } => OutlierKind::NonFinite,
            FitWarning::Break { .. } => OutlierKind::MonotonicityBreak,
        }
    }
}

/// The samples of a table in the order of its cells.
pub open spec fn gathered<T>(samples: Seq<T>, source: Seq<usize>) -> Seq<T> {
    Seq::new(source.len(), |k: int| samples[source[k] as int])
}

/// One warning for every dropped sample, in the order of the cells.
pub open spec fn drop_warnings<T>(cells: Seq<Option<T>>) -> Seq<FitWarning>
    decreases cells.len(),
{
    if cells.len() == 0 {
        seq![]
    } else if cells.last() is None {
        drop_warnings(cells.drop_last()).push(
            FitWarning::Dropped { cell: (cells.len() - 1) as usize },
        )
    } else {
        drop_warnings(cells.drop_last())
    }
}

/// The cells of a table, held densely.
#[derive(Clone, Debug)]
pub struct Cells<S> {
    values: Vec<Metrics4<S>>,
    valid: Vec<bool>,
    all_finite: bool,
    any_valid: bool,
}

pub open spec fn all_present<T>(cells: Seq<Option<T>>) -> bool {
    forall|k: int| 0 <= k < cells.len() ==> (#[trigger] cells[k]) is Some
}

pub open spec fn any_present<T>(cells: Seq<Option<T>>) -> bool {
    exists|k: int| 0 <= k < cells.len() && (#[trigger] cells[k]) is Some
}

impl<S: Scalar> View for Cells<S> {
    type V = Seq<Option<Metrics4<S>>>;

    closed spec fn view(&self) -> Seq<Option<Metrics4<S>>> {
        Seq::new(
            self.values@.len(),
            |k: int|
                if self.valid@[k] {
                    Some(self.values@[k])
                } else {
                    None
                },
        )
    }
}

impl<S: Scalar> Cells<S> {
    /// Whether the summary flags fit the cells.
    pub closed spec fn wf(&self) -> bool {
        &&& self.values@.len() == self.valid@.len()
        &&& self.all_finite == all_present(self@)
        &&& self.any_valid == any_present(self@)
        &&& forall|k: int|
            0 <= k < self.values@.len() && !self.valid@[k] ==> #[trigger] self.values@[k]
                == Metrics4::<S>::nothing()
    }

    /// Gather the cells of a table from its samples, with a warning for each that was
    /// dropped.
    pub fn gather(samples: &Vec<Option<Metrics4<S>>>, source: &Vec<usize>) -> (r: (
        Self,
        Vec<FitWarning>,
    ))
        requires
            forall|k: int| 0 <= k < source@.len() ==> #[trigger] source@[k] < samples@.len(),
        ensures
            r.0.wf(),
            r.0@ == gathered(samples@, source@),
            r.1@ == drop_warnings(r.0@),
    {
        let mut values: Vec<Metrics4<S>> = Vec::new();
        let mut valid: Vec<bool> = Vec::new();
        let mut warnings: Vec<FitWarning> = Vec::new();
        let mut all_finite: bool = true;
        let mut any_valid: bool = false;
        let mut k: usize = 0;
        let ghost cells = gathered(samples@, source@);
        assert(cells.take(0) =~= seq![]);
        assert(warnings@ =~= seq![]);
        while k < source.len()
            invariant
                k <= source@.len(),
                cells == gathered(samples@, source@),
                forall|j: int| 0 <= j < source@.len() ==> #[trigger] source@[j] < samples@.len(),
                values@.len() == k,
                valid@.len() == k,
                forall|j: int|
                    0 <= j < k ==> #[trigger] cells[j] == (if valid@[j] {
                        Some(values@[j])
                    } else {
                        None::<Metrics4<S>>
                    }),
                forall|j: int|
                    0 <= j < k && !valid@[j] ==> #[trigger] values@[j] == Metrics4::<S>::nothing(),
                all_finite == all_present(cells.take(k as int)),
                any_valid == any_present(cells.take(k as int)),
                warnings@ == drop_warnings(cells.take(k as int)),
            decreases source@.len() - k,
        {
            let ghost now = cells.take(k as int);
            let ghost next = cells.take(k + 1);
            assert(next.drop_last() =~= now);
            assert(next.last() == cells[k as int]);
            match &samples[source[k]] {
                Some(sample) => {
                    values.push(*sample);
                    valid.push(true);
                    any_valid = true;
                    assert(next[k as int] is Some);
                },
                None => {
                    values.push(Metrics4::zero());
                    valid.push(false);
                    warnings.push(FitWarning::Dropped { cell: k });
                    all_finite = false;
                    assert(next[k as int] is None);
                },
            }
            proof {
                assert(all_present(next) == (all_present(now) && next[k as int] is Some)) by {
                    if all_present(next) {
                        assert forall|j: int| 0 <= j < now.len() implies (#[trigger] now[j])
                            is Some by {
                            assert(next[j] is Some);
                        }
                    }
                    if all_present(now) && next[k as int] is Some {
                        assert forall|j: int| 0 <= j < next.len() implies (#[trigger] next[j])
                            is Some by {
                            if j < k {
                                assert(now[j] is Some);
                            }
                        }
                    }
                }
                assert(any_present(next) == (any_present(now) || next[k as int] is Some)) by {
                    if any_present(now) {
                        let j = choose|j: int| 0 <= j < now.len() && (#[trigger] now[j]) is Some;
                        assert(next[j] is Some);
                    }
                    if any_present(next) {
                        let j = choose|j: int| 0 <= j < next.len() && (#[trigger] next[j]) is Some;
                        if j < k {
                            assert(now[j] is Some);
                        }
                    }
                }
            }
            k += 1;
        }
        assert(cells.take(k as int) =~= cells);
        let r = Cells { values, valid, all_finite, any_valid };
        assert(r@ =~= cells);
        (r, warnings)
    }

    /// The cells of a table can be counted.
    pub proof fn len_in_range(&self)
        ensures
            self@.len() <= usize::MAX,
    {
        assert(self.values.len() == self.values@.len());
    }

    pub fn len(&self) -> (r: usize)
        requires
            self.wf(),
        ensures
            r == self@.len(),
    {
        self.values.len()
    }

    /// Whether no sample was dropped.
    pub fn is_complete(&self) -> (r: bool)
        requires
            self.wf(),
        ensures
            r == all_present(self@),
    {
        self.all_finite
    }

    /// Whether any sample was kept.
    pub fn has_any(&self) -> (r: bool)
        requires
            self.wf(),
        ensures
            r == any_present(self@),
    {
        self.any_valid
    }

    /// Whether the sample of a cell was kept.
    pub fn is_valid(&self, cell: usize) -> (r: bool)
        requires
            self.wf(),
            cell < self@.len(),
        ensures
            r == (self@[cell as int] is Some),
    {
        self.valid[cell]
    }

    /// The time of a cell, if its sample was kept.
    pub fn time(&self, cell: usize) -> (r: Option<S>)
        requires
            self.wf(),
            cell < self@.len(),
        ensures
            r == kept_time(self@[cell as int]),
    {
        if self.valid[cell] {
            Some(self.values[cell].time_ms)
        } else {
            None
        }
    }

    /// The metrics of a cell, zero if its sample was dropped.
    pub fn value(&self, cell: usize) -> (r: Metrics4<S>)
        requires
            self.wf(),
            cell < self@.len(),
        ensures
            r == (match self@[cell as int] {
                Some(metrics) => metrics,
                None => Metrics4::nothing(),
            }),
    {
        self.values[cell]
    }
}

/// The time of a sample that was kept.
pub open spec fn kept_time<S>(sample: Option<Metrics4<S>>) -> Option<S> {
    match sample {
        Some(metrics) => Some(metrics.time_ms),
        None => None,
    }
}

/// The last present cell among the first `count` of a line.
pub open spec fn last_present<T>(
    cells: Seq<Option<T>>,
    start: int,
    stride: int,
    count: int,
) -> Option<int>
    decreases count,
{
    if count <= 0 {
        None
    } else if cells[start + (count - 1) * stride] is Some {
        Some(start + (count - 1) * stride)
    } else {
        last_present(cells, start, stride, count - 1)
    }
}

/// Along the first `count` cells of a line, a warning for every present cell whose time
/// falls short of that of the present cell before it.
pub open spec fn line_warnings<S: Scalar>(
    cells: Seq<Option<Metrics4<S>>>,
    axis: usize,
    start: int,
    stride: int,
    count: int,
) -> Seq<FitWarning>
    decreases count,
{
    if count <= 0 {
        seq![]
    } else {
        let earlier = line_warnings(cells, axis, start, stride, count - 1);
        let at = start + (count - 1) * stride;
        match (last_present(cells, start, stride, count - 1), cells[at]) {
            (Some(before), Some(metrics)) => if metrics.drops_from(cells[before]->0) {
                earlier.push(FitWarning::Break { axis, before: before as usize, after: at as usize })
            } else {
                earlier
            },
            _ => earlier,
        }
    }
}

/// The warnings of every line along an axis whose first cell is among the first
/// `count` cells; such a line starts where the axis's coordinate is zero.
pub open spec fn axis_warnings<S: Scalar>(
    cells: Seq<Option<Metrics4<S>>>,
    axis: usize,
    stride: int,
    length: int,
    count: int,
) -> Seq<FitWarning>
    decreases count,
{
    if count <= 0 {
        seq![]
    } else {
        let earlier = axis_warnings(cells, axis, stride, length, count - 1);
        if ((count - 1) / stride) % length == 0 {
            earlier + line_warnings(cells, axis, count - 1, stride, length)
        } else {
            earlier
        }
    }
}

/// Whether a warning names cells of a table as they are: a dropped cell is empty, and a
/// drop in time is one between two kept cells.
pub open spec fn names_cells<S: Scalar>(
    warning: FitWarning,
    cells: Seq<Option<Metrics4<S>>>,
) -> bool {
    match warning {
        FitWarning::Dropped { cell } => cell < cells.len() && cells[cell as int] is None,
        FitWarning::Break { axis, before, after } => {
            &&& before < after < cells.len()
            &&& cells[before as int] is Some
            &&& cells[after as int] is Some
            &&& cells[after as int]->0.drops_from(cells[before as int]->0)
        },
    }
}

/// Whether all warnings name cells of a table as they are.
pub open spec fn all_name_cells<S: Scalar>(
    warnings: Seq<FitWarning>,
    cells: Seq<Option<Metrics4<S>>>,
) -> bool {
    forall|k: int| 0 <= k < warnings.len() ==> names_cells(#[trigger] warnings[k], cells)
}

/// The warnings of dropped samples name empty cells.
pub proof fn drops_name_cells<S: Scalar>(cells: Seq<Option<Metrics4<S>>>)
    requires
        cells.len() <= usize::MAX,
    ensures
        all_name_cells(drop_warnings(cells), cells),
    decreases cells.len(),
{
    if cells.len() > 0 {
        let front = cells.drop_last();
        drops_name_cells(front);
        let earlier = drop_warnings(front);
        let all = drop_warnings(cells);
        assert forall|k: int| 0 <= k < all.len() implies names_cells(#[trigger] all[k], cells) by {
            if k < earlier.len() {
                assert(all[k] == earlier[k]);
                assert(names_cells(earlier[k], front));
            }
        }
    }
}

/// The last kept cell of a line is one of its cells.
proof fn last_present_within<T>(cells: Seq<Option<T>>, start: int, stride: int, count: int)
    requires
        start >= 0,
        stride > 0,
        last_present(cells, start, stride, count) is Some,
    ensures
        ({
            let before = last_present(cells, start, stride, count)->0;
            &&& 0 <= before < start + count * stride
            &&& cells[before] is Some
        }),
    decreases count,
{
    assert((count - 1) * stride + stride == count * stride) by (nonlinear_arith);
    if count > 0 {
        assert((count - 1) * stride >= 0) by (nonlinear_arith)
            requires
                count >= 1,
                stride > 0,
        ;
        if cells[start + (count - 1) * stride] is None {
            last_present_within(cells, start, stride, count - 1);
        }
    }
}

/// The warnings of a line name its cells.
proof fn line_names_cells<S: Scalar>(
    cells: Seq<Option<Metrics4<S>>>,
    axis: usize,
    start: int,
    stride: int,
    count: int,
)
    requires
        cells.len() <= usize::MAX,
        start >= 0,
        stride > 0,
        count <= 0 || start + (count - 1) * stride < cells.len(),
    ensures
        all_name_cells(line_warnings(cells, axis, start, stride, count), cells),
    decreases count,
{
    if count > 0 {
        assert((count - 1) * stride >= 0 && (count - 2) * stride <= (count - 1) * stride)
            by (nonlinear_arith)
            requires
                count >= 1,
                stride > 0,
        ;
        line_names_cells(cells, axis, start, stride, count - 1);
        if last_present(cells, start, stride, count - 1) is Some {
            last_present_within(cells, start, stride, count - 1);
        }
        let earlier = line_warnings(cells, axis, start, stride, count - 1);
        let all = line_warnings(cells, axis, start, stride, count);
        assert forall|k: int| 0 <= k < all.len() implies names_cells(#[trigger] all[k], cells) by {
            if k < earlier.len() {
                assert(all[k] == earlier[k]);
            }
        }
    }
}

/// The warnings along an axis name cells of the table.
pub proof fn axis_names_cells<S: Scalar>(
    cells: Seq<Option<Metrics4<S>>>,
    axis: usize,
    stride: int,
    length: int,
    outer: int,
    count: int,
)
    requires
        0 <= count <= cells.len() <= usize::MAX,
        cells.len() > 0 ==> stride > 0 && length > 0,
        outer >= 0,
        cells.len() == outer * length * stride,
    ensures
        all_name_cells(axis_warnings(cells, axis, stride, length, count), cells),
    decreases count,
{
    if count > 0 {
        axis_names_cells(cells, axis, stride, length, outer, count - 1);
        let earlier = axis_warnings(cells, axis, stride, length, count - 1);
        let all = axis_warnings(cells, axis, stride, length, count);
        if ((count - 1) / stride) % length == 0 {
            line_within(count - 1, stride, length, outer);
            line_names_cells(cells, axis, count - 1, stride, length);
            let line = line_warnings(cells, axis, count - 1, stride, length);
            assert forall|k: int| 0 <= k < all.len() implies names_cells(
                #[trigger] all[k],
                cells,
            ) by {
                if k < earlier.len() {
                    assert(all[k] == earlier[k]);
                } else {
                    assert(all[k] == line[k - earlier.len()]);
                }
            }
        }
    }
}

/// Warnings that name cells still do so one after the other.
pub proof fn joined_name_cells<S: Scalar>(
    a: Seq<FitWarning>,
    b: Seq<FitWarning>,
    cells: Seq<Option<Metrics4<S>>>,
)
    requires
        all_name_cells(a, cells),
        all_name_cells(b, cells),
    ensures
        all_name_cells(a + b, cells),
{
    assert forall|k: int| 0 <= k < (a + b).len() implies names_cells(
        #[trigger] (a + b)[k],
        cells,
    ) by {
        if k < a.len() {
            assert((a + b)[k] == a[k]);
        } else {
            assert((a + b)[k] == b[k - a.len()]);
        }
    }
}

/// Append the warnings of one line.
fn scan_line<S: Scalar>(
    cells: &Cells<S>,
    axis: usize,
    start: usize,
    stride: usize,
    length: usize,
    warnings: &mut Vec<FitWarning>,
)
    requires
        cells.wf(),
        length > 0,
        start + (length - 1) * stride < cells@.len(),
        cells@.len() <= usize::MAX,
    ensures
        final(warnings)@ == old(warnings)@ + line_warnings(
            cells@,
            axis,
            start as int,
            stride as int,
            length as int,
        ),
{
    let mut before: Option<usize> = None;
    let mut p: usize = 0;
    assert(warnings@ =~= old(warnings)@ + line_warnings(cells@, axis, start as int, stride as int, 0));
    while p < length
        invariant
            p <= length,
            cells.wf(),
            start + (length - 1) * stride < cells@.len() <= usize::MAX,
            match before {
                Some(b) => b < cells@.len() && cells@[b as int] is Some && last_present(
                    cells@,
                    start as int,
                    stride as int,
                    p as int,
                ) == Some(b as int),
                None => last_present(cells@, start as int, stride as int, p as int) is None,
            },
            warnings@ == old(warnings)@ + line_warnings(
                cells@,
                axis,
                start as int,
                stride as int,
                p as int,
            ),
        decreases length - p,
    {
        assert(0 <= p * stride <= (length - 1) * stride) by (nonlinear_arith)
            requires
                0 <= p <= length - 1,
                0 <= stride,
        ;
        let at: usize = start + p * stride;
        if cells.is_valid(at) {
            let metrics = cells.value(at);
            if let Some(b) = before {
                let earlier = cells.value(b);
                if metrics.has_dropped(&earlier) {
                    warnings.push(FitWarning::Break { axis, before: b, after: at });
                }
            }
            before = Some(at);
        }
        p += 1;
        assert(warnings@ =~= old(warnings)@ + line_warnings(
            cells@,
            axis,
            start as int,
            stride as int,
            p as int,
        ));
    }
}

/// A line along an axis ends within the table.
proof fn line_within(index: int, stride: int, length: int, outer: int)
    requires
        stride > 0,
        length > 0,
        outer >= 0,
        0 <= index < outer * length * stride,
        (index / stride) % length == 0,
    ensures
        index + (length - 1) * stride < outer * length * stride,
{
    let line = index / stride;
    let rest = index % stride;
    let block = line / length;
    assert(index == stride * line + rest && 0 <= rest < stride) by (nonlinear_arith)
        requires
            stride > 0,
            line == index / stride,
            rest == index % stride,
    ;
    assert(line == length * block) by (nonlinear_arith)
        requires
            length > 0,
            line % length == 0,
            block == line / length,
    ;
    assert(block < outer) by (nonlinear_arith)
        requires
            stride * (length * block) < outer * length * stride,
            stride > 0,
            length > 0,
    ;
    assert(stride * (length * block) + rest + (length - 1) * stride < outer * length * stride)
        by (nonlinear_arith)
        requires
            block + 1 <= outer,
            rest < stride,
            stride > 0,
            length > 0,
    ;
}

/// Append the warnings of every line along an axis.
pub(crate) fn scan_axis<S: Scalar>(
    cells: &Cells<S>,
    axis: usize,
    stride: usize,
    length: usize,
    Ghost(outer): Ghost<int>,
    warnings: &mut Vec<FitWarning>,
)
    requires
        cells.wf(),
        cells@.len() <= usize::MAX,
        cells@.len() > 0 ==> stride > 0 && length > 0,
        outer >= 0,
        cells@.len() == outer * length * stride,
    ensures
        final(warnings)@ == old(warnings)@ + axis_warnings(
            cells@,
            axis,
            stride as int,
            length as int,
            cells@.len() as int,
        ),
{
    let mut index: usize = 0;
    assert(warnings@ =~= old(warnings)@ + axis_warnings(
        cells@,
        axis,
        stride as int,
        length as int,
        0,
    ));
    while index < cells.len()
        invariant
            cells.wf(),
            index <= cells@.len() <= usize::MAX,
            cells@.len() > 0 ==> stride > 0 && length > 0,
            outer >= 0,
            cells@.len() == outer * length * stride,
            warnings@ == old(warnings)@ + axis_warnings(
                cells@,
                axis,
                stride as int,
                length as int,
                index as int,
            ),
        decreases cells@.len() - index,
    {
        if (index / stride) % length == 0 {
            proof {
                line_within(index as int, stride as int, length as int, outer);
            }
            scan_line(cells, axis, index, stride, length, warnings);
        }
        index += 1;
        assert(warnings@ =~= old(warnings)@ + axis_warnings(
            cells@,
            axis,
            stride as int,
            length as int,
            index as int,
        ));
    }
}

} // verus!
