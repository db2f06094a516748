//! Tables of samples that follow a rule read the rule back.

use crate::cache::cells::all_present;
use crate::cache::corners::{complete_blend, on_table, weighted_sum, Corner};
use crate::cache::exact::{fits, steps_of};
use crate::cache::interp::{
    all_defined, in_order, located, segment_end, segment_fraction, segment_start, up_to, Metrics4,
};
use crate::cache::linear_1d::line_reading;
use crate::cache::linear_2d::{
    bilinear, corners_2d, distances_2d, past_ends, policies_agree_inside, policy_reading,
};
use crate::cache::linear_3d::{
    corner_3d, corner_ends, corners_3d, distances_3d, end_of, flat, flat_unflat, share_of,
    trilinear,
};
use crate::cache::scalar::{Fixed, Scalar, FIXED_ONE};
use crate::cache::slopes::{metric_of, AxisSlopes, Metric};
use crate::cache::Extrapolation;
use vstd::prelude::*;

verus! {

proof fn up_to_within(xs: Seq<Fixed>, x: Fixed)
    ensures
        up_to(xs, x) <= xs.len(),
    decreases xs.len(),
{
    if xs.len() > 0 {
        up_to_within(xs.drop_last(), x);
    }
}

/// The segment of an axis that a coordinate is looked up in lies on the axis.
pub proof fn segment_on_axis(xs: Seq<Fixed>, x: Fixed)
    requires
        xs.len() >= 2,
    ensures
        0 <= segment_start(xs, x) < xs.len() - 1,
        segment_end(xs, x) == segment_start(xs, x) + 1,
{
    up_to_within(xs, x);
}

/// How wide the segment of a coordinate is.
pub open spec fn segment_width(xs: Seq<Fixed>, x: Fixed) -> int {
    xs[segment_end(xs, x)].steps - xs[segment_start(xs, x)].steps
}

/// How far past the start of its segment a coordinate lies.
pub open spec fn past_start(xs: Seq<Fixed>, x: Fixed) -> int {
    x.steps - xs[segment_start(xs, x)].steps
}

/// Whether the fraction of its segment at which a coordinate lies is a whole number of
/// steps, and in range.
pub open spec fn lies_even(xs: Seq<Fixed>, x: Fixed) -> bool {
    &&& xs.len() >= 2
    &&& segment_width(xs, x) > 0
    &&& fits(segment_width(xs, x))
    &&& fits(past_start(xs, x))
    &&& (past_start(xs, x) * FIXED_ONE) % segment_width(xs, x) == 0
    &&& fits((past_start(xs, x) * FIXED_ONE) / segment_width(xs, x))
}

/// The fraction at which a coordinate lies, times the width of its segment, is its way
/// from the start.
pub proof fn fraction_spans_way(xs: Seq<Fixed>, x: Fixed)
    requires
        lies_even(xs, x),
    ensures
        segment_fraction(xs, x).steps * segment_width(xs, x) == past_start(xs, x) * FIXED_ONE,
{
    segment_on_axis(xs, x);
    let w = segment_width(xs, x);
    let p = past_start(xs, x) * FIXED_ONE;
    assert(segment_fraction(xs, x).steps == p / w);
    assert((p / w) * w == p) by (nonlinear_arith)
        requires
            p % w == 0,
            w > 0,
    ;
}

/// A line sampled from an affine rule reads the rule back, at its points, between them and
/// past both ends, in every metric: where the samples follow `d * value == c + g * x`, so
/// does every reading. Left out are coordinates at which a fraction would be rounded, and
/// numbers past the range.
pub proof fn line_reads_affine_back(
    xs: Seq<Fixed>,
    metrics: Seq<Metrics4<Fixed>>,
    x: Fixed,
    metric: Metric,
    c: int,
    g: int,
    d: int,
)
    requires
        metrics.len() == xs.len() <= usize::MAX,
        d > 0,
        forall|k: int|
            0 <= k < xs.len() ==> d * steps_of(#[trigger] metrics[k], metric) == c + g
                * xs[k].steps,
        lies_even(xs, x),
        (g * past_start(xs, x)) % d == 0,
        fits((g * past_start(xs, x)) / d),
        forall|k: int, l: int|
            0 <= k < xs.len() && 0 <= l < xs.len() ==> fits(
                steps_of(#[trigger] metrics[k], metric) - steps_of(#[trigger] metrics[l], metric),
            ),
        fits((c + g * x.steps) / d),
    ensures
        d * steps_of(line_reading(xs, metrics, x).0, metric) == c + g * x.steps,
{
    let one = FIXED_ONE as int;
    segment_on_axis(xs, x);
    fraction_spans_way(xs, x);
    let i = segment_start(xs, x);
    let w = segment_width(xs, x);
    let way = past_start(xs, x);
    let t = segment_fraction(xs, x).steps as int;
    let a = steps_of(metrics[i], metric);
    let b = steps_of(metrics[i + 1], metric);
    let q = (g * way) / d;
    assert(located(xs, x).low == i && located(xs, x).high == i + 1);
    assert(d * (b - a) == g * w) by (nonlinear_arith)
        requires
            d * a == c + g * xs[i].steps,
            d * b == c + g * xs[i + 1].steps,
            w == xs[i + 1].steps - xs[i].steps,
    ;
    assert(d * q == g * way) by (nonlinear_arith)
        requires
            q == (g * way) / d,
            (g * way) % d == 0,
            d > 0,
    ;
    assert(d * ((b - a) * t) == d * (q * one)) by (nonlinear_arith)
        requires
            d * (b - a) == g * w,
            t * w == way * one,
            d * q == g * way,
    ;
    assert((b - a) * t == q * one) by (nonlinear_arith)
        requires
            d * ((b - a) * t) == d * (q * one),
            d > 0,
    ;
    assert((q * one) / one == q) by (nonlinear_arith)
        requires
            one == 1048576,
    ;
    assert(d * (a + q) == c + g * x.steps) by (nonlinear_arith)
        requires
            d * a == c + g * xs[i].steps,
            d * q == g * way,
            way == x.steps - xs[i].steps,
    ;
    assert(a + q == (c + g * x.steps) / d) by (nonlinear_arith)
        requires
            d * (a + q) == c + g * x.steps,
            d > 0,
    ;
    assert(fits(b - a));
}

/// Whether a number has no fraction.
pub open spec fn is_whole(value: Fixed) -> bool {
    value.steps as int % FIXED_ONE as int == 0
}

/// The number of ones in a number without a fraction.
pub open spec fn ones(value: Fixed) -> int {
    value.steps as int / FIXED_ONE as int
}

/// Whether a coordinate lies at a fraction of its segment that products of two fractions
/// hold without rounding, at most 64 widths off, between whole points.
pub open spec fn lies_finely(xs: Seq<Fixed>, x: Fixed) -> bool {
    &&& lies_even(xs, x)
    &&& segment_fraction(xs, x).steps as int % 1024 == 0
    &&& -64 * FIXED_ONE <= segment_fraction(xs, x).steps <= 64 * FIXED_ONE
    &&& is_whole(xs[segment_start(xs, x)])
    &&& is_whole(xs[segment_end(xs, x)])
}

/// The rule of a surface that bends only in the product of its coordinates.
pub open spec fn surface(c: int, g0: int, g1: int, h: int, x0: int, x1: int) -> int {
    c + g0 * x0 + g1 * x1 + h * (x0 * x1)
}

/// Both shares of a fraction add up to one, and weigh the ends of the segment to where
/// the coordinate lies.
proof fn shares_weigh_ends(xs: Seq<Fixed>, x: Fixed)
    requires
        lies_finely(xs, x),
    ensures
        ({
            let t = segment_fraction(xs, x).steps as int;
            let low = ones(xs[segment_start(xs, x)]);
            let high = ones(xs[segment_end(xs, x)]);
            (FIXED_ONE - t) * low + t * high == x.steps
        }),
{
    fraction_spans_way(xs, x);
    let one = FIXED_ONE as int;
    let t = segment_fraction(xs, x).steps as int;
    let a = xs[segment_start(xs, x)].steps as int;
    let b = xs[segment_end(xs, x)].steps as int;
    let low = a / one;
    let high = b / one;
    assert(a == one * low && b == one * high) by (nonlinear_arith)
        requires
            a % one == 0,
            b % one == 0,
            low == a / one,
            high == b / one,
            one == 1048576,
    ;
    assert((one - t) * low + t * high == x.steps) by (nonlinear_arith)
        requires
            t * (b - a) == (x.steps - a) * one,
            a == one * low,
            b == one * high,
            one == 1048576,
    ;
}

/// The product of two shares that are multiples of 1024 steps is not rounded.
proof fn share_product(a: Fixed, b: Fixed)
    requires
        a.steps as int % 1024 == 0,
        b.steps as int % 1024 == 0,
        -65 * FIXED_ONE <= a.steps <= 65 * FIXED_ONE,
        -65 * FIXED_ONE <= b.steps <= 65 * FIXED_ONE,
    ensures
        a.product(b).steps * FIXED_ONE == a.steps * b.steps,
        -0x1_0810_0000 <= a.product(b).steps <= 0x1_0810_0000,
{
    let one = FIXED_ONE as int;
    let (x, y) = (a.steps as int, b.steps as int);
    let p = x * y;
    assert(p % one == 0 && (p / one) * one == p) by (nonlinear_arith)
        requires
            x % 1024 == 0,
            y % 1024 == 0,
            p == x * y,
            one == 1048576,
    {
        let (k, l) = (x / 1024, y / 1024);
        assert(x == 1024 * k && y == 1024 * l);
        assert(p == one * (k * l));
    }
    assert(-(65 * 65) * one <= p / one <= (65 * 65) * one) by (nonlinear_arith)
        requires
            -65 * one <= x <= 65 * one,
            -65 * one <= y <= 65 * one,
            p == x * y,
            one == 1048576,
    ;
}

/// A whole metric times a weight is not rounded.
proof fn whole_product(value: Fixed, weight: Fixed)
    requires
        is_whole(value),
        -0x1000_0000 <= ones(value) <= 0x1000_0000,
        -0x1_0810_0000 <= weight.steps <= 0x1_0810_0000,
    ensures
        value.product(weight).steps == ones(value) * weight.steps,
        -0x1081_0000_0000_0000 <= ones(value) * weight.steps <= 0x1081_0000_0000_0000,
{
    let one = FIXED_ONE as int;
    let (v, w, u) = (value.steps as int, weight.steps as int, ones(value));
    assert(v == one * u) by (nonlinear_arith)
        requires
            v % one == 0,
            u == v / one,
            one == 1048576,
    ;
    assert((v * w) / one == u * w) by (nonlinear_arith)
        requires
            v == one * u,
            one == 1048576,
    ;
    assert(-0x1081_0000_0000_0000 <= u * w <= 0x1081_0000_0000_0000) by (nonlinear_arith)
        requires
            -0x1000_0000 <= u <= 0x1000_0000,
            -0x1_0810_0000 <= w <= 0x1_0810_0000,
    ;
}

/// A cell of a grid over two axes.
pub open spec fn cell_2d(
    cells: Seq<Option<Metrics4<Fixed>>>,
    columns: int,
    i: int,
    j: int,
) -> Metrics4<Fixed> {
    cells[i * columns + j]->0
}

/// Whether a metric of every cell of a grid follows the rule of a surface over whole
/// coordinates, with values of at most 28 bits.
pub open spec fn follows_surface(
    xs0: Seq<Fixed>,
    xs1: Seq<Fixed>,
    cells: Seq<Option<Metrics4<Fixed>>>,
    metric: Metric,
    rule: (int, int, int, int),
) -> bool {
    forall|i: int, j: int|
        0 <= i < xs0.len() && 0 <= j < xs1.len() ==> {
            let value = surface(rule.0, rule.1, rule.2, rule.3, ones(xs0[i]), ones(xs1[j]));
            &&& steps_of(#[trigger] cell_2d(cells, xs1.len() as int, i, j), metric) == FIXED_ONE
                * value
            &&& -0x1000_0000 <= value <= 0x1000_0000
        }
}

proof fn corner_on_grid(i: int, j: int, rows: int, columns: int)
    requires
        0 <= i < rows,
        0 <= j < columns,
    ensures
        0 <= i * columns + j < rows * columns,
{
    assert(0 <= i * columns && i * columns + j < rows * columns) by (nonlinear_arith)
        requires
            0 <= i < rows,
            0 <= j < columns,
    ;
}

proof fn value_is_whole(value: Fixed, units: int)
    requires
        value.steps == FIXED_ONE * units,
    ensures
        is_whole(value),
        ones(value) == units,
{
    let one = FIXED_ONE as int;
    assert((one * units) % one == 0 && (one * units) / one == units) by (nonlinear_arith)
        requires
            one == 1048576,
    ;
}

/// A metric of a weighted sum of four measured corners.
proof fn four_corners_add(
    cells: Seq<Option<Metrics4<Fixed>>>,
    corners: Seq<Corner<Fixed>>,
    metric: Metric,
    values: Seq<int>,
)
    requires
        corners.len() == 4,
        values.len() == 4,
        forall|k: int|
            0 <= k < 4 ==> {
                &&& cells[(#[trigger] corners[k]).cell as int] is Some
                &&& steps_of(cells[corners[k].cell as int]->0, metric) == FIXED_ONE * values[k]
                &&& -0x1000_0000 <= values[k] <= 0x1000_0000
                &&& -0x1_0810_0000 <= corners[k].weight.steps <= 0x1_0810_0000
            },
    ensures
        steps_of(weighted_sum(cells, corners, 4), metric) == values[0] * corners[0].weight.steps
            + values[1] * corners[1].weight.steps + values[2] * corners[2].weight.steps + values[3]
            * corners[3].weight.steps,
{
    reveal_with_fuel(weighted_sum, 5);
    one_corner(cells, corners, metric, values, 0);
    one_corner(cells, corners, metric, values, 1);
    one_corner(cells, corners, metric, values, 2);
    one_corner(cells, corners, metric, values, 3);
}

proof fn one_corner(
    cells: Seq<Option<Metrics4<Fixed>>>,
    corners: Seq<Corner<Fixed>>,
    metric: Metric,
    values: Seq<int>,
    k: int,
)
    requires
        0 <= k < corners.len(),
        cells[corners[k].cell as int] is Some,
        steps_of(cells[corners[k].cell as int]->0, metric) == FIXED_ONE * values[k],
        -0x1000_0000 <= values[k] <= 0x1000_0000,
        -0x1_0810_0000 <= corners[k].weight.steps <= 0x1_0810_0000,
    ensures
        fits(
            steps_of(weighted_sum(cells, corners, k), metric) + values[k] * corners[k].weight.steps,
        ) ==> steps_of(weighted_sum(cells, corners, k + 1), metric) == steps_of(
            weighted_sum(cells, corners, k),
            metric,
        ) + values[k] * corners[k].weight.steps,
        -0x1081_0000_0000_0000 <= values[k] * corners[k].weight.steps <= 0x1081_0000_0000_0000,
{
    let value = metric_of(cells[corners[k].cell as int]->0, metric);
    value_is_whole(value, values[k]);
    whole_product(value, corners[k].weight);
}

/// A grid sampled from a rule that bends only in the product of its coordinates reads the
/// rule back, in every metric: at its points, between them, and past its ends as far as
/// its surface is extended. Left out are coordinates at which a weight would be rounded.
pub proof fn grid_reads_surface_back(
    xs0: Seq<Fixed>,
    xs1: Seq<Fixed>,
    cells: Seq<Option<Metrics4<Fixed>>>,
    x0: Fixed,
    x1: Fixed,
    metric: Metric,
    rule: (int, int, int, int),
)
    requires
        cells.len() == xs0.len() * xs1.len(),
        cells.len() <= usize::MAX,
        xs0.len() <= usize::MAX,
        xs1.len() <= usize::MAX,
        all_present(cells),
        lies_finely(xs0, x0),
        lies_finely(xs1, x1),
        follows_surface(xs0, xs1, cells, metric, rule),
    ensures
        FIXED_ONE * steps_of(bilinear(xs0, xs1, cells, x0, x1).0, metric) == rule.0 * (FIXED_ONE
            * FIXED_ONE) + rule.1 * x0.steps * FIXED_ONE + rule.2 * x1.steps * FIXED_ONE + rule.3
            * (x0.steps * x1.steps),
{
    let one = FIXED_ONE as int;
    let (rows, columns) = (xs0.len() as int, xs1.len() as int);
    segment_on_axis(xs0, x0);
    segment_on_axis(xs1, x1);
    let (i, j) = (segment_start(xs0, x0), segment_start(xs1, x1));
    let a = located(xs0, x0);
    let b = located(xs1, x1);
    assert(a.low == i && a.high == i + 1 && b.low == j && b.high == j + 1);
    corner_on_grid(i, j, rows, columns);
    corner_on_grid(i, j + 1, rows, columns);
    corner_on_grid(i + 1, j, rows, columns);
    corner_on_grid(i + 1, j + 1, rows, columns);
    let corners = corners_2d(a, b, columns);
    let rest0 = Fixed::one_value().difference(a.t);
    let rest1 = Fixed::one_value().difference(b.t);
    assert(rest0.steps == one - a.t.steps && rest1.steps == one - b.t.steps);
    share_product(rest0, rest1);
    share_product(rest0, b.t);
    share_product(a.t, rest1);
    share_product(a.t, b.t);
    assert(on_table(corners, cells.len()));
    complete_blend(
        cells,
        corners,
        distances_2d(xs0, xs1, a, b, x0, x1),
        a.outside || b.outside,
    );
    let (l0, h0) = (ones(xs0[i]), ones(xs0[i + 1]));
    let (l1, h1) = (ones(xs1[j]), ones(xs1[j + 1]));
    let values = seq![
        surface(rule.0, rule.1, rule.2, rule.3, l0, l1),
        surface(rule.0, rule.1, rule.2, rule.3, l0, h1),
        surface(rule.0, rule.1, rule.2, rule.3, h0, l1),
        surface(rule.0, rule.1, rule.2, rule.3, h0, h1),
    ];
    assert(corners[0].cell == i * columns + j);
    assert(corners[1].cell == i * columns + (j + 1));
    assert(corners[2].cell == (i + 1) * columns + j);
    assert(corners[3].cell == (i + 1) * columns + (j + 1));
    assert(cells[corners[0].cell as int]->0 == cell_2d(cells, columns, i, j));
    assert(cells[corners[1].cell as int]->0 == cell_2d(cells, columns, i, j + 1));
    assert(cells[corners[2].cell as int]->0 == cell_2d(cells, columns, i + 1, j));
    assert(cells[corners[3].cell as int]->0 == cell_2d(cells, columns, i + 1, j + 1));
    four_corners_add(cells, corners, metric, values);
    shares_weigh_ends(xs0, x0);
    shares_weigh_ends(xs1, x1);
    let sum = steps_of(weighted_sum(cells, corners, 4), metric);
    let (r0, t0) = (rest0.steps as int, a.t.steps as int);
    let (r1, t1) = (rest1.steps as int, b.t.steps as int);
    let w = (
        corners[0].weight.steps as int,
        corners[1].weight.steps as int,
        corners[2].weight.steps as int,
        corners[3].weight.steps as int,
    );
    let v = (values[0], values[1], values[2], values[3]);
    let (v0, v1, v2, v3) = v;
    let (w0, w1, w2, w3) = w;
    let (p0, p1, p2, p3) = (v0 * w0, v1 * w1, v2 * w2, v3 * w3);
    assert(one * (p0 + p1 + p2 + p3) == one * p0 + one * p1 + one * p2 + one * p3);
    assert(one * (v0 * w0) == v0 * (w0 * one)) by (nonlinear_arith);
    assert(one * (v1 * w1) == v1 * (w1 * one)) by (nonlinear_arith);
    assert(one * (v2 * w2) == v2 * (w2 * one)) by (nonlinear_arith);
    assert(one * (v3 * w3) == v3 * (w3 * one)) by (nonlinear_arith);
    corners_weigh_to_rule(
        rule,
        (l0, h0),
        (l1, h1),
        (r0, t0),
        (r1, t1),
        (x0.steps as int, x1.steps as int),
    );
}

/// Shares that add up to one and weigh the ends of both segments to a point weigh the
/// corners of a surface to its value at that point.
proof fn corners_weigh_to_rule(
    rule: (int, int, int, int),
    e0: (int, int),
    e1: (int, int),
    s0: (int, int),
    s1: (int, int),
    x: (int, int),
)
    requires
        s0.0 + s0.1 == FIXED_ONE,
        s1.0 + s1.1 == FIXED_ONE,
        s0.0 * e0.0 + s0.1 * e0.1 == x.0,
        s1.0 * e1.0 + s1.1 * e1.1 == x.1,
    ensures
        surface(rule.0, rule.1, rule.2, rule.3, e0.0, e1.0) * (s0.0 * s1.0) + surface(
            rule.0,
            rule.1,
            rule.2,
            rule.3,
            e0.0,
            e1.1,
        ) * (s0.0 * s1.1) + surface(rule.0, rule.1, rule.2, rule.3, e0.1, e1.0) * (s0.1 * s1.0)
            + surface(rule.0, rule.1, rule.2, rule.3, e0.1, e1.1) * (s0.1 * s1.1) == rule.0 * (
        FIXED_ONE * FIXED_ONE) + rule.1 * x.0 * FIXED_ONE + rule.2 * x.1 * FIXED_ONE + rule.3 * (x.0
            * x.1),
{
    let one = FIXED_ONE as int;
    let (c, g0, g1, h) = rule;
    let (l0, h0) = e0;
    let (l1, h1) = e1;
    let (p, q) = s0;
    let (r, t) = s1;
    let at_low = surface(c, g0, g1, h, l0, l1) * r + surface(c, g0, g1, h, l0, h1) * t;
    let at_high = surface(c, g0, g1, h, h0, l1) * r + surface(c, g0, g1, h, h0, h1) * t;
    line_weighs(c + g0 * l0, g1 + h * l0, l1, h1, r, t, x.1);
    line_weighs(c + g0 * h0, g1 + h * h0, l1, h1, r, t, x.1);
    assert(surface(c, g0, g1, h, l0, l1) == (c + g0 * l0) + (g1 + h * l0) * l1
        && surface(c, g0, g1, h, l0, h1) == (c + g0 * l0) + (g1 + h * l0) * h1
        && surface(c, g0, g1, h, h0, l1) == (c + g0 * h0) + (g1 + h * h0) * l1
        && surface(c, g0, g1, h, h0, h1) == (c + g0 * h0) + (g1 + h * h0) * h1)
        by (nonlinear_arith);
    assert(at_low == (c + g0 * l0) * one + (g1 + h * l0) * x.1);
    assert(at_high == (c + g0 * h0) * one + (g1 + h * h0) * x.1);
    let base = c * one + g1 * x.1;
    let rise = g0 * one + h * x.1;
    let y = x.1;
    assert((c + g0 * l0) * one + (g1 + h * l0) * y == (c * one + g1 * y) + (g0 * one + h * y) * l0)
        by (nonlinear_arith);
    assert((c + g0 * h0) * one + (g1 + h * h0) * y == (c * one + g1 * y) + (g0 * one + h * y) * h0)
        by (nonlinear_arith);
    line_weighs(base, rise, l0, h0, p, q, x.0);
    assert(at_low * p + at_high * q == base * one + rise * x.0);
    let z = x.0;
    assert((c * one + g1 * y) * one == c * (one * one) + g1 * y * one) by (nonlinear_arith);
    assert((g0 * one + h * y) * z == g0 * z * one + h * (z * y)) by (nonlinear_arith);
    let (v00, v01) = (surface(c, g0, g1, h, l0, l1), surface(c, g0, g1, h, l0, h1));
    let (v10, v11) = (surface(c, g0, g1, h, h0, l1), surface(c, g0, g1, h, h0, h1));
    assert((v00 * r + v01 * t) * p == v00 * (p * r) + v01 * (p * t)) by (nonlinear_arith);
    assert((v10 * r + v11 * t) * q == v10 * (q * r) + v11 * (q * t)) by (nonlinear_arith);
}

/// Shares that add up to one and weigh two ends to a point weigh a line's values at the
/// ends to its value at that point.
proof fn line_weighs(c: int, g: int, low: int, high: int, r: int, t: int, x: int)
    requires
        r + t == FIXED_ONE,
        r * low + t * high == x,
    ensures
        (c + g * low) * r + (c + g * high) * t == c * FIXED_ONE + g * x,
{
    assert((c + g * low) * r == c * r + g * (r * low)) by (nonlinear_arith);
    assert((c + g * high) * t == c * t + g * (t * high)) by (nonlinear_arith);
    let (a, b) = (r * low, t * high);
    assert(g * (a + b) == g * a + g * b) by (nonlinear_arith);
    assert(c * (r + t) == c * r + c * t) by (nonlinear_arith);
}

/// A table that extends its surface keeps to the rule past its ends, and a table of any
/// policy keeps to it inside its grid.
pub proof fn policies_keep_to_surface(
    xs0: Seq<Fixed>,
    xs1: Seq<Fixed>,
    cells: Seq<Option<Metrics4<Fixed>>>,
    policy: Extrapolation,
    slopes: Option<AxisSlopes<Fixed>>,
    x0: Fixed,
    x1: Fixed,
    metric: Metric,
    rule: (int, int, int, int),
)
    requires
        cells.len() == xs0.len() * xs1.len(),
        cells.len() <= usize::MAX,
        xs0.len() <= usize::MAX,
        xs1.len() <= usize::MAX,
        all_present(cells),
        lies_finely(xs0, x0),
        lies_finely(xs1, x1),
        follows_surface(xs0, xs1, cells, metric, rule),
        policy == Extrapolation::Product || !past_ends(xs0, x0) && !past_ends(xs1, x1),
    ensures
        FIXED_ONE * steps_of(
            policy_reading(xs0, xs1, cells, policy, slopes, x0, x1).0,
            metric,
        ) == rule.0 * (FIXED_ONE * FIXED_ONE) + rule.1 * x0.steps * FIXED_ONE + rule.2 * x1.steps
            * FIXED_ONE + rule.3 * (x0.steps * x1.steps),
{
    grid_reads_surface_back(xs0, xs1, cells, x0, x1, metric, rule);
    if policy != Extrapolation::Product {
        policies_agree_inside(xs0, xs1, cells, policy, slopes, x0, x1);
    }
}

/// Whether a coordinate lies at a fraction of its segment that products of three fractions
/// hold without rounding, at most four widths off, between whole points.
pub open spec fn lies_coarsely(xs: Seq<Fixed>, x: Fixed) -> bool {
    &&& lies_finely(xs, x)
    &&& segment_fraction(xs, x).steps as int % 16384 == 0
    &&& -4 * FIXED_ONE <= segment_fraction(xs, x).steps <= 4 * FIXED_ONE
}

/// The rule of a flat surface over three coordinates.
pub open spec fn flat_rule(c: int, g: (int, int, int), x: (int, int, int)) -> int {
    c + g.0 * x.0 + g.1 * x.1 + g.2 * x.2
}

/// A cell of a block over three axes.
pub open spec fn cell_3d(
    cells: Seq<Option<Metrics4<Fixed>>>,
    d1: int,
    d2: int,
    i: int,
    j: int,
    k: int,
) -> Metrics4<Fixed> {
    cells[flat(d1, d2, i, j, k)]->0
}

/// Whether a metric of every cell of a block follows a flat rule over whole coordinates,
/// with values of at most 32 bits.
pub open spec fn follows_flat_rule(
    xs0: Seq<Fixed>,
    xs1: Seq<Fixed>,
    xs2: Seq<Fixed>,
    cells: Seq<Option<Metrics4<Fixed>>>,
    metric: Metric,
    c: int,
    g: (int, int, int),
) -> bool {
    forall|i: int, j: int, k: int|
        0 <= i < xs0.len() && 0 <= j < xs1.len() && 0 <= k < xs2.len() ==> {
            let value = flat_rule(c, g, (ones(xs0[i]), ones(xs1[j]), ones(xs2[k])));
            &&& steps_of(
                #[trigger] cell_3d(cells, xs1.len() as int, xs2.len() as int, i, j, k),
                metric,
            ) == FIXED_ONE * value
            &&& -0x1_0000_0000 <= value <= 0x1_0000_0000
        }
}

/// The product of three shares that are multiples of 16384 steps is not rounded.
proof fn share_triple(a: Fixed, b: Fixed, c: Fixed)
    requires
        a.steps as int % 16384 == 0,
        b.steps as int % 16384 == 0,
        c.steps as int % 16384 == 0,
        -5 * FIXED_ONE <= a.steps <= 5 * FIXED_ONE,
        -5 * FIXED_ONE <= b.steps <= 5 * FIXED_ONE,
        -5 * FIXED_ONE <= c.steps <= 5 * FIXED_ONE,
    ensures
        ({
            let w = Fixed::one_value().product(a).product(b).product(c).steps as int;
            &&& w * (FIXED_ONE * FIXED_ONE) == (a.steps * b.steps) * c.steps
            &&& -0x7D0_0000 <= w <= 0x7D0_0000
        }),
{
    let one = FIXED_ONE as int;
    let (x, y, z) = (a.steps as int, b.steps as int, c.steps as int);
    let first = Fixed::one_value().product(a);
    assert((one * x) / one == x) by (nonlinear_arith)
        requires
            one == 1048576,
    ;
    assert(first == a);
    let (k, l, m) = (x / 16384, y / 16384, z / 16384);
    assert(x == 16384 * k && y == 16384 * l && z == 16384 * m);
    assert(-320 <= k <= 320 && -320 <= l <= 320 && -320 <= m <= 320);
    let kl = k * l;
    assert(-102400 <= kl <= 102400) by (nonlinear_arith)
        requires
            -320 <= k <= 320,
            -320 <= l <= 320,
            kl == k * l,
    ;
    assert(x * y == one * (256 * kl)) by (nonlinear_arith)
        requires
            x == 16384 * k,
            y == 16384 * l,
            kl == k * l,
            one == 1048576,
    ;
    let pair = a.product(b);
    assert((one * (256 * kl)) / one == 256 * kl) by (nonlinear_arith)
        requires
            one == 1048576,
    ;
    assert(pair.steps == 256 * kl);
    let klm = kl * m;
    assert(-32768000 <= klm <= 32768000) by (nonlinear_arith)
        requires
            -102400 <= kl <= 102400,
            -320 <= m <= 320,
            klm == kl * m,
    ;
    assert((256 * kl) * z == one * (4 * klm)) by (nonlinear_arith)
        requires
            z == 16384 * m,
            klm == kl * m,
            one == 1048576,
    ;
    assert((one * (4 * klm)) / one == 4 * klm) by (nonlinear_arith)
        requires
            one == 1048576,
    ;
    assert(pair.product(c).steps == 4 * klm);
    assert((x * y) * z == (4 * klm) * (one * one)) by (nonlinear_arith)
        requires
            x * y == one * (256 * kl),
            (256 * kl) * z == one * (4 * klm),
    ;
}

proof fn one_corner_3d(
    cells: Seq<Option<Metrics4<Fixed>>>,
    corners: Seq<Corner<Fixed>>,
    metric: Metric,
    value: int,
    k: int,
)
    requires
        0 <= k < corners.len(),
        cells[corners[k].cell as int] is Some,
        steps_of(cells[corners[k].cell as int]->0, metric) == FIXED_ONE * value,
        -0x1_0000_0000 <= value <= 0x1_0000_0000,
        -0x7D0_0000 <= corners[k].weight.steps <= 0x7D0_0000,
    ensures
        fits(steps_of(weighted_sum(cells, corners, k), metric) + value * corners[k].weight.steps)
            ==> steps_of(weighted_sum(cells, corners, k + 1), metric) == steps_of(
            weighted_sum(cells, corners, k),
            metric,
        ) + value * corners[k].weight.steps,
        -0x07D0_0000_0000_0000 <= value * corners[k].weight.steps <= 0x07D0_0000_0000_0000,
{
    let one = FIXED_ONE as int;
    let w = corners[k].weight.steps as int;
    assert((one * value) * w == one * (value * w)) by (nonlinear_arith);
    assert((one * (value * w)) / one == value * w) by (nonlinear_arith)
        requires
            one == 1048576,
    ;
    assert(-0x07D0_0000_0000_0000 <= value * w <= 0x07D0_0000_0000_0000) by (nonlinear_arith)
        requires
            -0x1_0000_0000 <= value <= 0x1_0000_0000,
            -0x7D0_0000 <= w <= 0x7D0_0000,
    ;
}

/// What the shares of a corner of a block come to, times one squared.
spec fn weighed(value: int, a: int, b: int, c: int) -> int {
    value * ((a * b) * c)
}

/// A corner's weighted value, times one squared, is its value times its three shares.
proof fn corner_weighed(value: int, w: int, a: int, b: int, c: int)
    requires
        w * (FIXED_ONE * FIXED_ONE) == (a * b) * c,
    ensures
        (value * w) * (FIXED_ONE * FIXED_ONE) == weighed(value, a, b, c),
{
    let square = FIXED_ONE * FIXED_ONE;
    assert((value * w) * square == value * (w * square)) by (nonlinear_arith);
}

/// The two corners along the first axis weigh to the rule at the coordinate.
proof fn pair_weighed(c: int, g: int, low: int, high: int, r: int, t: int, x: int, s: int, u: int)
    requires
        r + t == FIXED_ONE,
        r * low + t * high == x,
    ensures
        weighed(c + g * low, r, s, u) + weighed(c + g * high, t, s, u) == (c * FIXED_ONE + g * x)
            * (s * u),
{
    line_weighs(c, g, low, high, r, t, x);
    let (v, z, su) = (c + g * low, c + g * high, s * u);
    assert(v * ((r * s) * u) == (v * r) * (s * u)) by (nonlinear_arith);
    assert(z * ((t * s) * u) == (z * t) * (s * u)) by (nonlinear_arith);
    let (a, b) = (v * r, z * t);
    assert((a + b) * su == a * su + b * su) by (nonlinear_arith);
}

/// A block sampled from a flat rule reads the rule back, in every metric: at its points,
/// between them, and past its ends. Left out are coordinates at which a weight would be
/// rounded.
#[verifier::rlimit(40)]
pub proof fn block_reads_flat_rule_back(
    xs0: Seq<Fixed>,
    xs1: Seq<Fixed>,
    xs2: Seq<Fixed>,
    cells: Seq<Option<Metrics4<Fixed>>>,
    x: (Fixed, Fixed, Fixed),
    metric: Metric,
    c: int,
    g: (int, int, int),
)
    requires
        cells.len() == xs0.len() * xs1.len() * xs2.len(),
        cells.len() <= usize::MAX,
        xs0.len() <= usize::MAX,
        xs1.len() <= usize::MAX,
        xs2.len() <= usize::MAX,
        all_present(cells),
        lies_coarsely(xs0, x.0),
        lies_coarsely(xs1, x.1),
        lies_coarsely(xs2, x.2),
        follows_flat_rule(xs0, xs1, xs2, cells, metric, c, g),
    ensures
        steps_of(trilinear(xs0, xs1, xs2, cells, x).0, metric) == c * FIXED_ONE + g.0 * x.0.steps
            + g.1 * x.1.steps + g.2 * x.2.steps,
{
    let one = FIXED_ONE as int;
    let (d0, d1, d2) = (xs0.len() as int, xs1.len() as int, xs2.len() as int);
    segment_on_axis(xs0, x.0);
    segment_on_axis(xs1, x.1);
    segment_on_axis(xs2, x.2);
    let (i, j, k) = (
        segment_start(xs0, x.0),
        segment_start(xs1, x.1),
        segment_start(xs2, x.2),
    );
    let a = located(xs0, x.0);
    let b = located(xs1, x.1);
    let e = located(xs2, x.2);
    assert(a.low == i && a.high == i + 1 && b.low == j && b.high == j + 1 && e.low == k && e.high
        == k + 1);
    let corners = corners_3d(a, b, e, d1, d2);
    let (r0, t0) = (one - a.t.steps, a.t.steps as int);
    let (r1, t1) = (one - b.t.steps, b.t.steps as int);
    let (r2, t2) = (one - e.t.steps, e.t.steps as int);
    let (l0, h0) = (ones(xs0[i]), ones(xs0[i + 1]));
    let (l1, h1) = (ones(xs1[j]), ones(xs1[j + 1]));
    let (l2, h2) = (ones(xs2[k]), ones(xs2[k + 1]));
    assert(corner_ends(0) == (false, false, false) && corner_ends(1) == (true, false, false)
        && corner_ends(2) == (false, true, false) && corner_ends(3) == (true, true, false)
        && corner_ends(4) == (false, false, true) && corner_ends(5) == (true, false, true)
        && corner_ends(6) == (false, true, true) && corner_ends(7) == (true, true, true));
    let n = cells.len() as int;
    let v0 = corner_of_block(xs0, xs1, xs2, cells, x, metric, c, g, 0);
    let v1 = corner_of_block(xs0, xs1, xs2, cells, x, metric, c, g, 1);
    let v2 = corner_of_block(xs0, xs1, xs2, cells, x, metric, c, g, 2);
    let v3 = corner_of_block(xs0, xs1, xs2, cells, x, metric, c, g, 3);
    let v4 = corner_of_block(xs0, xs1, xs2, cells, x, metric, c, g, 4);
    let v5 = corner_of_block(xs0, xs1, xs2, cells, x, metric, c, g, 5);
    let v6 = corner_of_block(xs0, xs1, xs2, cells, x, metric, c, g, 6);
    let v7 = corner_of_block(xs0, xs1, xs2, cells, x, metric, c, g, 7);
    assert(on_table(corners, cells.len())) by {
        assert forall|q: int| 0 <= q < corners.len() implies (#[trigger] corners[q]).cell
            < cells.len() by {
            assert(q == 0 || q == 1 || q == 2 || q == 3 || q == 4 || q == 5 || q == 6 || q == 7);
        }
    }
    complete_blend(
        cells,
        corners,
        distances_3d(xs0, xs1, xs2, a, b, e, x),
        a.outside || b.outside || e.outside,
    );
    assert(weighted_sum(cells, corners, 0) == Metrics4::<Fixed>::nothing());
    one_corner_3d(cells, corners, metric, v0, 0);
    one_corner_3d(cells, corners, metric, v1, 1);
    one_corner_3d(cells, corners, metric, v2, 2);
    one_corner_3d(cells, corners, metric, v3, 3);
    one_corner_3d(cells, corners, metric, v4, 4);
    one_corner_3d(cells, corners, metric, v5, 5);
    one_corner_3d(cells, corners, metric, v6, 6);
    one_corner_3d(cells, corners, metric, v7, 7);
    let sum = steps_of(weighted_sum(cells, corners, 8), metric);
    let parts = (
        v0 * corners[0].weight.steps,
        v1 * corners[1].weight.steps,
        v2 * corners[2].weight.steps,
        v3 * corners[3].weight.steps,
        v4 * corners[4].weight.steps,
        v5 * corners[5].weight.steps,
        v6 * corners[6].weight.steps,
        v7 * corners[7].weight.steps,
    );
    assert(sum == parts.0 + parts.1 + parts.2 + parts.3 + parts.4 + parts.5 + parts.6 + parts.7);
    let square = one * one;
    assert(sum * square == parts.0 * square + parts.1 * square + parts.2 * square + parts.3 * square
        + parts.4 * square + parts.5 * square + parts.6 * square + parts.7 * square);
    shares_weigh_ends(xs0, x.0);
    shares_weigh_ends(xs1, x.1);
    shares_weigh_ends(xs2, x.2);
    let (y0, y1, y2) = (x.0.steps as int, x.1.steps as int, x.2.steps as int);
    block_weighs_to_rule(
        c,
        g,
        (l0, h0),
        (l1, h1),
        (l2, h2),
        (r0, t0),
        (r1, t1),
        (r2, t2),
        (y0, y1, y2),
    );
    let result = c * one + g.0 * y0 + g.1 * y1 + g.2 * y2;
    assert(sum * square == result * square);
    assert(sum == result) by (nonlinear_arith)
        requires
            sum * square == result * square,
            square == 1048576 * 1048576,
    ;
}

/// A corner of a block that follows a flat rule: where it stands, its value and its
/// weight.
proof fn corner_of_block(
    xs0: Seq<Fixed>,
    xs1: Seq<Fixed>,
    xs2: Seq<Fixed>,
    cells: Seq<Option<Metrics4<Fixed>>>,
    x: (Fixed, Fixed, Fixed),
    metric: Metric,
    c: int,
    g: (int, int, int),
    at: int,
) -> (value: int)
    requires
        0 <= at < 8,
        cells.len() == xs0.len() * xs1.len() * xs2.len(),
        cells.len() <= usize::MAX,
        xs0.len() <= usize::MAX,
        xs1.len() <= usize::MAX,
        xs2.len() <= usize::MAX,
        all_present(cells),
        lies_coarsely(xs0, x.0),
        lies_coarsely(xs1, x.1),
        lies_coarsely(xs2, x.2),
        follows_flat_rule(xs0, xs1, xs2, cells, metric, c, g),
    ensures
        ({
            let (u0, u1, u2) = corner_ends(at);
            let corner = corners_3d(
                located(xs0, x.0),
                located(xs1, x.1),
                located(xs2, x.2),
                xs1.len() as int,
                xs2.len() as int,
            )[at];
            &&& corner.cell < cells.len()
            &&& cells[corner.cell as int] is Some
            &&& value == flat_rule(
                c,
                g,
                (end_ones(xs0, x.0, u0), end_ones(xs1, x.1, u1), end_ones(xs2, x.2, u2)),
            )
            &&& steps_of(cells[corner.cell as int]->0, metric) == FIXED_ONE * value
            &&& -0x1_0000_0000 <= value <= 0x1_0000_0000
            &&& -0x7D0_0000 <= corner.weight.steps <= 0x7D0_0000
            &&& (value * corner.weight.steps) * (FIXED_ONE * FIXED_ONE) == weighed(
                value,
                share_steps(xs0, x.0, u0),
                share_steps(xs1, x.1, u1),
                share_steps(xs2, x.2, u2),
            )
        }),
{
    let one = FIXED_ONE as int;
    let (d0, d1, d2) = (xs0.len() as int, xs1.len() as int, xs2.len() as int);
    let (u0, u1, u2) = corner_ends(at);
    segment_on_axis(xs0, x.0);
    segment_on_axis(xs1, x.1);
    segment_on_axis(xs2, x.2);
    let a = located(xs0, x.0);
    let b = located(xs1, x.1);
    let e = located(xs2, x.2);
    let (i, j, k) = (end_of(a, u0) as int, end_of(b, u1) as int, end_of(e, u2) as int);
    flat_unflat(d0, d1, d2, i, j, k);
    let value = flat_rule(c, g, (ones(xs0[i]), ones(xs1[j]), ones(xs2[k])));
    assert(steps_of(cell_3d(cells, d1, d2, i, j, k), metric) == one * value);
    let corner = corners_3d(a, b, e, d1, d2)[at];
    assert(corner == corner_3d(a, b, e, d1, d2, corner_ends(at)));
    let (s0, s1, s2) = (share_of(a, u0), share_of(b, u1), share_of(e, u2));
    assert(s0.steps == share_steps(xs0, x.0, u0));
    assert(s1.steps == share_steps(xs1, x.1, u1));
    assert(s2.steps == share_steps(xs2, x.2, u2));
    share_triple(s0, s1, s2);
    corner_weighed(
        value,
        corner.weight.steps as int,
        s0.steps as int,
        s1.steps as int,
        s2.steps as int,
    );
    value
}

/// The low or high end of a coordinate's segment, in ones.
spec fn end_ones(xs: Seq<Fixed>, x: Fixed, high: bool) -> int {
    if high {
        ones(xs[segment_end(xs, x)])
    } else {
        ones(xs[segment_start(xs, x)])
    }
}

/// The share of that end.
spec fn share_steps(xs: Seq<Fixed>, x: Fixed, high: bool) -> int {
    let t = segment_fraction(xs, x).steps as int;
    if high {
        t
    } else {
        FIXED_ONE - t
    }
}

/// Shares that weigh the ends of three segments to a point weigh the corners of a flat
/// rule to its value there.
proof fn block_weighs_to_rule(
    c: int,
    g: (int, int, int),
    e0: (int, int),
    e1: (int, int),
    e2: (int, int),
    s0: (int, int),
    s1: (int, int),
    s2: (int, int),
    y: (int, int, int),
)
    requires
        s0.0 + s0.1 == FIXED_ONE,
        s1.0 + s1.1 == FIXED_ONE,
        s2.0 + s2.1 == FIXED_ONE,
        s0.0 * e0.0 + s0.1 * e0.1 == y.0,
        s1.0 * e1.0 + s1.1 * e1.1 == y.1,
        s2.0 * e2.0 + s2.1 * e2.1 == y.2,
    ensures
        weighed(flat_rule(c, g, (e0.0, e1.0, e2.0)), s0.0, s1.0, s2.0) + weighed(
            flat_rule(c, g, (e0.1, e1.0, e2.0)),
            s0.1,
            s1.0,
            s2.0,
        ) + weighed(flat_rule(c, g, (e0.0, e1.1, e2.0)), s0.0, s1.1, s2.0) + weighed(
            flat_rule(c, g, (e0.1, e1.1, e2.0)),
            s0.1,
            s1.1,
            s2.0,
        ) + weighed(flat_rule(c, g, (e0.0, e1.0, e2.1)), s0.0, s1.0, s2.1) + weighed(
            flat_rule(c, g, (e0.1, e1.0, e2.1)),
            s0.1,
            s1.0,
            s2.1,
        ) + weighed(flat_rule(c, g, (e0.0, e1.1, e2.1)), s0.0, s1.1, s2.1) + weighed(
            flat_rule(c, g, (e0.1, e1.1, e2.1)),
            s0.1,
            s1.1,
            s2.1,
        ) == (c * FIXED_ONE + g.0 * y.0 + g.1 * y.1 + g.2 * y.2) * (FIXED_ONE * FIXED_ONE),
{
    let one = FIXED_ONE as int;
    let q00 = pair_of_block(c, g, e0, (e1.0, e2.0), s0, (s1.0, s2.0), y.0);
    let q10 = pair_of_block(c, g, e0, (e1.1, e2.0), s0, (s1.1, s2.0), y.0);
    let q01 = pair_of_block(c, g, e0, (e1.0, e2.1), s0, (s1.0, s2.1), y.0);
    let q11 = pair_of_block(c, g, e0, (e1.1, e2.1), s0, (s1.1, s2.1), y.0);
    let base = c * one + g.0 * y.0;
    let (g1, g2) = (g.1 * one, g.2 * one);
    corners_weigh_to_rule((base, g1, g2, 0), e1, e2, s1, s2, (y.1, y.2));
    assert(0 * (e1.0 * e2.0) == 0 && 0 * (e1.0 * e2.1) == 0 && 0 * (e1.1 * e2.0) == 0 && 0 * (e1.1
        * e2.1) == 0 && 0 * (y.1 * y.2) == 0);
    let (a, b, m) = (g.1, g.2, base);
    let (p, q) = (y.1, y.2);
    assert(m * (one * one) + (a * one) * p * one + (b * one) * q * one == (m + a * p + b * q) * (
    one * one)) by (nonlinear_arith);
}

/// The pair of corners along the first axis at given ends of the other two.
proof fn pair_of_block(
    c: int,
    g: (int, int, int),
    e0: (int, int),
    ends: (int, int),
    s0: (int, int),
    shares: (int, int),
    y: int,
) -> (sum: int)
    requires
        s0.0 + s0.1 == FIXED_ONE,
        s0.0 * e0.0 + s0.1 * e0.1 == y,
    ensures
        sum == weighed(
            flat_rule(c, g, (e0.0, ends.0, ends.1)),
            s0.0,
            shares.0,
            shares.1,
        ) + weighed(flat_rule(c, g, (e0.1, ends.0, ends.1)), s0.1, shares.0, shares.1),
        sum == surface(
            c * FIXED_ONE + g.0 * y,
            g.1 * FIXED_ONE,
            g.2 * FIXED_ONE,
            0,
            ends.0,
            ends.1,
        ) * (shares.0 * shares.1),
{
    let one = FIXED_ONE as int;
    let rest = c + g.1 * ends.0 + g.2 * ends.1;
    pair_weighed(rest, g.0, e0.0, e0.1, s0.0, s0.1, y, shares.0, shares.1);
    let (a, b, m, n) = (g.1, g.2, ends.0, ends.1);
    assert((c + a * m + b * n) * one == c * one + (a * one) * m + (b * one) * n)
        by (nonlinear_arith);
    assert(0 * (m * n) == 0);
    weighed(flat_rule(c, g, (e0.0, ends.0, ends.1)), s0.0, shares.0, shares.1) + weighed(
        flat_rule(c, g, (e0.1, ends.0, ends.1)),
        s0.1,
        shares.0,
        shares.1,
    )
}

} // verus!
