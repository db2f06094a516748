//! Slopes fitted to samples that lie on a plane are the slopes of the plane.

use crate::cache::affine::{
    cell_2d, follows_surface, grid_reads_surface_back, is_whole, lies_finely, ones,
};
use crate::cache::cells::all_present;
use crate::cache::exact::{fits, steps_of};
use crate::cache::interp::{in_order, Metrics4};
use crate::cache::linear_2d::{bilinear, gained, overshoot_steps, policy_reading};
use crate::cache::scalar::{Fixed, Scalar, Wide, FIXED_ONE};
use crate::cache::slopes::{
    band_slopes, band_term, determinant, fitted_axis, fitted_slope, is_degenerate, metric_of,
    normal_matrix, observed_sums, table_slopes, term_sum, top_band, with_column, BandCell, BandTerm,
    Matrix3, Metric,
};
use crate::cache::Extrapolation;
use vstd::prelude::*;

verus! {

/// The most ones that a fixed-point number holds.
pub open spec fn most_ones() -> int {
    0x7FF_FFFF_FFFF
}

/// Whether a cell of a band has whole coordinates, and a metric on the plane
/// `c + a * x0 + b * x1`, none of them larger than `k`.
pub open spec fn on_plane(
    cell: BandCell<Fixed>,
    metric: Metric,
    plane: (int, int, int),
    k: int,
) -> bool {
    let value = plane.0 + plane.1 * ones(cell.x0) + plane.2 * ones(cell.x1);
    &&& is_whole(cell.x0)
    &&& is_whole(cell.x1)
    &&& -k <= ones(cell.x0) <= k
    &&& -k <= ones(cell.x1) <= k
    &&& -k <= value <= k
    &&& steps_of(cell.metrics, metric) == FIXED_ONE * value
}

/// Whether every cell of a band is on a plane.
pub open spec fn all_on_plane(
    band: Seq<BandCell<Fixed>>,
    metric: Metric,
    plane: (int, int, int),
    k: int,
) -> bool {
    forall|i: int| 0 <= i < band.len() ==> on_plane(#[trigger] band[i], metric, plane, k)
}

/// Whether the sums of a band of `n` cells with numbers of at most `k` stay in range.
pub open spec fn sums_fit(n: int, k: int) -> bool {
    &&& n >= 1
    &&& k >= 1
    &&& 6 * ((n * k) * ((n * (k * k)) * (n * (k * k)))) <= most_ones()
}

spec fn term_ones(cell: BandCell<Fixed>, term: BandTerm) -> int {
    let (x0, x1) = (ones(cell.x0), ones(cell.x1));
    match term {
        BandTerm::X0 => x0,
        BandTerm::X1 => x1,
        BandTerm::X0X0 => x0 * x0,
        BandTerm::X1X1 => x1 * x1,
        BandTerm::X0X1 => x0 * x1,
    }
}

spec fn term_total(band: Seq<BandCell<Fixed>>, term: BandTerm, count: int) -> int
    decreases count,
{
    if count <= 0 {
        0
    } else {
        term_total(band, term, count - 1) + term_ones(band[count - 1], term)
    }
}

/// A number of ones.
spec fn ones_of(units: int) -> Fixed {
    Fixed { steps: (FIXED_ONE * units) as i64 }
}

proof fn ones_in_range(units: int)
    requires
        -most_ones() <= units <= most_ones(),
    ensures
        fits(FIXED_ONE * units),
        ones_of(units).steps == FIXED_ONE * units,
{
}

proof fn whole_is_ones_of(value: Fixed)
    requires
        is_whole(value),
    ensures
        value == ones_of(ones(value)),
{
    let one = FIXED_ONE as int;
    let v = value.steps as int;
    assert(v == one * (v / one)) by (nonlinear_arith)
        requires
            v % one == 0,
            one == 1048576,
    ;
}

/// Arithmetic on whole numbers in range is exact.
proof fn whole_arithmetic(u: int, v: int)
    requires
        -most_ones() <= u <= most_ones(),
        -most_ones() <= v <= most_ones(),
    ensures
        -most_ones() <= u + v <= most_ones() ==> Wide::sum(ones_of(u), ones_of(v)) == ones_of(
            u + v,
        ),
        -most_ones() <= u - v <= most_ones() ==> Wide::difference(ones_of(u), ones_of(v))
            == ones_of(u - v),
        -most_ones() <= u * v <= most_ones() ==> Wide::product(ones_of(u), ones_of(v)) == ones_of(
            u * v,
        ),
{
    let one = FIXED_ONE as int;
    ones_in_range(u);
    ones_in_range(v);
    let (x, y) = (one * u, one * v);
    assert(x * y == one * (one * (u * v))) by (nonlinear_arith)
        requires
            x == one * u,
            y == one * v,
    ;
    let p = one * (u * v);
    assert((one * p) / one == p) by (nonlinear_arith)
        requires
            one == 1048576,
    ;
}

/// The bounds that the sums of a band keep to.
proof fn sums_bounded(n: int, k: int)
    requires
        sums_fit(n, k),
    ensures
        1 <= n <= n * k,
        n * k <= n * (k * k),
        n * (k * k) <= most_ones(),
        1 <= k <= k * k,
        k * k <= most_ones(),
{
    let (r, s) = (n * k, n * (k * k));
    assert(n <= n * k) by (nonlinear_arith)
        requires
            n >= 1,
            k >= 1,
    ;
    assert(k <= k * k) by (nonlinear_arith)
        requires
            k >= 1,
    ;
    assert(n * k <= n * (k * k)) by (nonlinear_arith)
        requires
            n >= 1,
            k <= k * k,
    ;
    assert(k * k <= n * (k * k)) by (nonlinear_arith)
        requires
            n >= 1,
            k >= 1,
    ;
    assert(s <= s * s) by (nonlinear_arith)
        requires
            s >= 1,
    ;
    let t = s * s;
    assert(t <= r * t) by (nonlinear_arith)
        requires
            r >= 1,
            t >= 1,
    ;
}

proof fn term_bounded(
    cell: BandCell<Fixed>,
    term: BandTerm,
    metric: Metric,
    plane: (int, int, int),
    k: int,
)
    requires
        on_plane(cell, metric, plane, k),
        k >= 1,
        k * k <= most_ones(),
        k <= k * k,
    ensures
        -(k * k) <= term_ones(cell, term) <= k * k,
        band_term(cell, term) == ones_of(term_ones(cell, term)),
        (term is X0 || term is X1) ==> -k <= term_ones(cell, term) <= k,
{
    let (x0, x1) = (ones(cell.x0), ones(cell.x1));
    whole_is_ones_of(cell.x0);
    whole_is_ones_of(cell.x1);
    bounded_product(x0, x0, k, k);
    bounded_product(x1, x1, k, k);
    bounded_product(x0, x1, k, k);
    whole_arithmetic(x0, x0);
    whole_arithmetic(x1, x1);
    whole_arithmetic(x0, x1);
}

proof fn bounded_product(a: int, b: int, p: int, q: int)
    requires
        -p <= a <= p,
        -q <= b <= q,
    ensures
        -(p * q) <= a * b <= p * q,
{
    assert(-(p * q) <= a * b <= p * q) by (nonlinear_arith)
        requires
            -p <= a <= p,
            -q <= b <= q,
    ;
}

/// The sums of a band's terms are exact.
proof fn terms_add_up(
    band: Seq<BandCell<Fixed>>,
    term: BandTerm,
    count: int,
    metric: Metric,
    plane: (int, int, int),
    k: int,
)
    requires
        0 <= count <= band.len(),
        all_on_plane(band, metric, plane, k),
        sums_fit(band.len() as int, k),
    ensures
        term_sum(band, term, count) == ones_of(term_total(band, term, count)),
        -(count * (k * k)) <= term_total(band, term, count) <= count * (k * k),
        (term is X0 || term is X1) ==> -(count * k) <= term_total(band, term, count) <= count * k,
    decreases count,
{
    let n = band.len() as int;
    sums_bounded(n, k);
    if count > 0 {
        terms_add_up(band, term, count - 1, metric, plane, k);
        assert(on_plane(band[count - 1], metric, plane, k));
        term_bounded(band[count - 1], term, metric, plane, k);
        let s = k * k;
        assert((count - 1) * s + s == count * s && count * s <= n * s && (count - 1) * s <= n * s)
            by (nonlinear_arith)
            requires
                1 <= count <= n,
                s >= 1,
        ;
        assert((count - 1) * k + k == count * k) by (nonlinear_arith);
        whole_arithmetic(
            term_total(band, term, count - 1),
            term_ones(band[count - 1], term),
        );
    } else {
        assert(0 * (k * k) == 0 && 0 * k == 0);
    }
}

spec fn value_ones(cell: BandCell<Fixed>, plane: (int, int, int)) -> int {
    plane.0 + plane.1 * ones(cell.x0) + plane.2 * ones(cell.x1)
}

spec fn value_totals(band: Seq<BandCell<Fixed>>, plane: (int, int, int), count: int) -> (
    int,
    int,
    int,
)
    decreases count,
{
    if count <= 0 {
        (0, 0, 0)
    } else {
        let rest = value_totals(band, plane, count - 1);
        let cell = band[count - 1];
        let v = value_ones(cell, plane);
        (rest.0 + v, rest.1 + ones(cell.x0) * v, rest.2 + ones(cell.x1) * v)
    }
}

/// The sums of a band's observations are exact.
proof fn observations_add_up(
    band: Seq<BandCell<Fixed>>,
    count: int,
    metric: Metric,
    plane: (int, int, int),
    k: int,
)
    requires
        0 <= count <= band.len(),
        all_on_plane(band, metric, plane, k),
        sums_fit(band.len() as int, k),
    ensures
        ({
            let (u, v, w) = value_totals(band, plane, count);
            &&& observed_sums(band, metric, count) == (ones_of(u), ones_of(v), ones_of(w))
            &&& -(count * k) <= u <= count * k
            &&& -(count * (k * k)) <= v <= count * (k * k)
            &&& -(count * (k * k)) <= w <= count * (k * k)
        }),
    decreases count,
{
    let n = band.len() as int;
    sums_bounded(n, k);
    if count > 0 {
        observations_add_up(band, count - 1, metric, plane, k);
        let cell = band[count - 1];
        assert(on_plane(cell, metric, plane, k));
        let (x0, x1, v) = (ones(cell.x0), ones(cell.x1), value_ones(cell, plane));
        let (u, s, t) = value_totals(band, plane, count - 1);
        whole_is_ones_of(cell.x0);
        whole_is_ones_of(cell.x1);
        ones_in_range(v);
        assert(metric_of(cell.metrics, metric) == ones_of(v));
        bounded_product(x0, v, k, k);
        bounded_product(x1, v, k, k);
        let square = k * k;
        assert((count - 1) * square + square == count * square && count * square <= n * square
            && (count - 1) * square <= n * square) by (nonlinear_arith)
            requires
                1 <= count <= n,
                square >= 1,
        ;
        assert((count - 1) * k + k == count * k && count * k <= n * k && (count - 1) * k <= n * k)
            by (nonlinear_arith)
            requires
                1 <= count <= n,
                k >= 1,
        ;
        whole_arithmetic(x0, v);
        whole_arithmetic(x1, v);
        whole_arithmetic(u, v);
        whole_arithmetic(s, x0 * v);
        whole_arithmetic(t, x1 * v);
    } else {
        assert(0 * (k * k) == 0 && 0 * k == 0);
    }
}

/// The observations on a plane are the plane's numbers times the sums of the band.
proof fn observations_follow_plane(
    band: Seq<BandCell<Fixed>>,
    plane: (int, int, int),
    count: int,
)
    requires
        0 <= count <= band.len(),
    ensures
        ({
            let (c, a, b) = plane;
            let (u, v, w) = value_totals(band, plane, count);
            let s0 = term_total(band, BandTerm::X0, count);
            let s1 = term_total(band, BandTerm::X1, count);
            let s00 = term_total(band, BandTerm::X0X0, count);
            let s01 = term_total(band, BandTerm::X0X1, count);
            let s11 = term_total(band, BandTerm::X1X1, count);
            &&& u == c * count + a * s0 + b * s1
            &&& v == c * s0 + a * s00 + b * s01
            &&& w == c * s1 + a * s01 + b * s11
        }),
    decreases count,
{
    let (c, a, b) = plane;
    if count > 0 {
        observations_follow_plane(band, plane, count - 1);
        let cell = band[count - 1];
        let (x, y) = (ones(cell.x0), ones(cell.x1));
        let m = count - 1;
        let s0 = term_total(band, BandTerm::X0, m);
        let s1 = term_total(band, BandTerm::X1, m);
        let s00 = term_total(band, BandTerm::X0X0, m);
        let s01 = term_total(band, BandTerm::X0X1, m);
        let s11 = term_total(band, BandTerm::X1X1, m);
        assert(x * (c + a * x + b * y) == c * x + a * (x * x) + b * (x * y)) by (nonlinear_arith);
        assert(y * (c + a * x + b * y) == c * y + a * (x * y) + b * (y * y)) by (nonlinear_arith);
        spread(c, m, 1);
        spread(a, s0, x);
        spread(b, s1, y);
        spread(c, s0, x);
        spread(a, s00, x * x);
        spread(b, s01, x * y);
        spread(c, s1, y);
        spread(a, s01, x * y);
        spread(b, s11, y * y);
    } else {
        assert(c * 0 == 0 && a * 0 == 0 && b * 0 == 0);
    }
}

proof fn spread(a: int, b: int, c: int)
    ensures
        a * (b + c) == a * b + a * c,
{
    assert(a * (b + c) == a * b + a * c) by (nonlinear_arith);
}

/// The determinant of a matrix with these columns.
spec fn det3(p: (int, int, int), q: (int, int, int), r: (int, int, int)) -> int {
    p.0 * (q.1 * r.2 - r.1 * q.2) - q.0 * (p.1 * r.2 - r.1 * p.2) + r.0 * (p.1 * q.2 - q.1 * p.2)
}

/// `c` times one column, `a` times another and `b` times a third.
spec fn mixed(
    c: int,
    a: int,
    b: int,
    u: (int, int, int),
    v: (int, int, int),
    w: (int, int, int),
) -> (int, int, int) {
    (c * u.0 + a * v.0 + b * w.0, c * u.1 + a * v.1 + b * w.1, c * u.2 + a * v.2 + b * w.2)
}

proof fn det3_along_second(p: (int, int, int), q: (int, int, int), r: (int, int, int))
    ensures
        det3(p, q, r) == q.0 * (r.1 * p.2 - p.1 * r.2) + q.1 * (p.0 * r.2 - r.0 * p.2) + q.2 * (r.0
            * p.1 - p.0 * r.1),
{
    let (p0, p1, p2) = p;
    let (q0, q1, q2) = q;
    let (r0, r1, r2) = r;
    assert(p0 * (q1 * r2 - r1 * q2) == q1 * (p0 * r2) - q2 * (p0 * r1)) by (nonlinear_arith);
    assert(r0 * (p1 * q2 - q1 * p2) == q2 * (r0 * p1) - q1 * (r0 * p2)) by (nonlinear_arith);
    assert(q0 * (p1 * r2 - r1 * p2) == -(q0 * (r1 * p2 - p1 * r2))) by (nonlinear_arith);
    assert(q1 * (p0 * r2 - r0 * p2) == q1 * (p0 * r2) - q1 * (r0 * p2)) by (nonlinear_arith);
    assert(q2 * (r0 * p1 - p0 * r1) == q2 * (r0 * p1) - q2 * (p0 * r1)) by (nonlinear_arith);
}

proof fn det3_along_third(p: (int, int, int), q: (int, int, int), r: (int, int, int))
    ensures
        det3(p, q, r) == r.0 * (p.1 * q.2 - q.1 * p.2) + r.1 * (q.0 * p.2 - p.0 * q.2) + r.2 * (p.0
            * q.1 - q.0 * p.1),
{
    let (p0, p1, p2) = p;
    let (q0, q1, q2) = q;
    let (r0, r1, r2) = r;
    assert(p0 * (q1 * r2 - r1 * q2) == r2 * (p0 * q1) - r1 * (p0 * q2)) by (nonlinear_arith);
    assert(q0 * (p1 * r2 - r1 * p2) == r2 * (q0 * p1) - r1 * (q0 * p2)) by (nonlinear_arith);
    assert(r1 * (q0 * p2 - p0 * q2) == r1 * (q0 * p2) - r1 * (p0 * q2)) by (nonlinear_arith);
    assert(r2 * (p0 * q1 - q0 * p1) == r2 * (p0 * q1) - r2 * (q0 * p1)) by (nonlinear_arith);
}

proof fn mix_spreads(c: int, a: int, b: int, x: int, y: int, z: int, m: int)
    ensures
        (c * x + a * y + b * z) * m == c * (x * m) + a * (y * m) + b * (z * m),
{
    let (p, q, r) = (c * x, a * y, b * z);
    assert((p + q + r) * m == p * m + q * m + r * m) by (nonlinear_arith);
    assert((c * x) * m == c * (x * m)) by (nonlinear_arith);
    assert((a * y) * m == a * (y * m)) by (nonlinear_arith);
    assert((b * z) * m == b * (z * m)) by (nonlinear_arith);
}

proof fn three_spread(c: int, x: int, y: int, z: int)
    ensures
        c * (x + y + z) == c * x + c * y + c * z,
{
    assert(c * (x + y + z) == c * x + c * y + c * z) by (nonlinear_arith);
}

/// Replacing the second column by a mix of all three multiplies the determinant by the
/// share of the second.
proof fn mix_in_second(
    p: (int, int, int),
    q: (int, int, int),
    r: (int, int, int),
    c: int,
    a: int,
    b: int,
)
    ensures
        det3(p, mixed(c, a, b, p, q, r), r) == a * det3(p, q, r),
{
    let (m0, m1, m2) = (
        r.1 * p.2 - p.1 * r.2,
        p.0 * r.2 - r.0 * p.2,
        r.0 * p.1 - p.0 * r.1,
    );
    det3_along_second(p, mixed(c, a, b, p, q, r), r);
    det3_along_second(p, q, r);
    det3_along_second(p, p, r);
    det3_along_second(p, r, r);
    mix_spreads(c, a, b, p.0, q.0, r.0, m0);
    mix_spreads(c, a, b, p.1, q.1, r.1, m1);
    mix_spreads(c, a, b, p.2, q.2, r.2, m2);
    three_spread(c, p.0 * m0, p.1 * m1, p.2 * m2);
    three_spread(a, q.0 * m0, q.1 * m1, q.2 * m2);
    three_spread(b, r.0 * m0, r.1 * m1, r.2 * m2);
    det3_of_twins(p, r);
    assert(c * 0 == 0 && b * 0 == 0);
}

/// Replacing the third column by a mix of all three multiplies the determinant by the
/// share of the third.
proof fn mix_in_third(
    p: (int, int, int),
    q: (int, int, int),
    r: (int, int, int),
    c: int,
    a: int,
    b: int,
)
    ensures
        det3(p, q, mixed(c, a, b, p, q, r)) == b * det3(p, q, r),
{
    let (m0, m1, m2) = (
        p.1 * q.2 - q.1 * p.2,
        q.0 * p.2 - p.0 * q.2,
        p.0 * q.1 - q.0 * p.1,
    );
    det3_along_third(p, q, mixed(c, a, b, p, q, r));
    det3_along_third(p, q, r);
    det3_along_third(p, q, p);
    det3_along_third(p, q, q);
    mix_spreads(c, a, b, p.0, q.0, r.0, m0);
    mix_spreads(c, a, b, p.1, q.1, r.1, m1);
    mix_spreads(c, a, b, p.2, q.2, r.2, m2);
    three_spread(c, p.0 * m0, p.1 * m1, p.2 * m2);
    three_spread(a, q.0 * m0, q.1 * m1, q.2 * m2);
    three_spread(b, r.0 * m0, r.1 * m1, r.2 * m2);
    det3_of_twins(p, q);
    assert(c * 0 == 0 && a * 0 == 0);
}

/// A matrix with two equal columns has no determinant.
proof fn det3_of_twins(p: (int, int, int), q: (int, int, int))
    ensures
        det3(p, p, q) == 0,
        det3(p, q, q) == 0,
        det3(p, q, p) == 0,
{
    let (p0, p1, p2) = p;
    let (q0, q1, q2) = q;
    assert(q1 * q2 - q1 * q2 == 0 && p1 * p2 - p1 * p2 == 0);
    assert(p0 * 0 == 0 && q0 * 0 == 0);
    assert(p0 * (q1 * p2 - p1 * q2) + p0 * (p1 * q2 - q1 * p2) == 0) by (nonlinear_arith);
    assert(q0 * (p1 * p2 - p1 * p2) == 0) by (nonlinear_arith);
}

/// The matrix with these columns of whole numbers.
spec fn whole_matrix(p: (int, int, int), q: (int, int, int), r: (int, int, int)) -> Matrix3<Fixed> {
    Matrix3 {
        row0: (ones_of(p.0), ones_of(q.0), ones_of(r.0)),
        row1: (ones_of(p.1), ones_of(q.1), ones_of(r.1)),
        row2: (ones_of(p.2), ones_of(q.2), ones_of(r.2)),
    }
}

spec fn within(column: (int, int, int), top: int, rest: int) -> bool {
    -top <= column.0 <= top && -rest <= column.1 <= rest && -rest <= column.2 <= rest
}

/// The determinant of a matrix of whole numbers is exact.
proof fn determinant_is_exact(
    p: (int, int, int),
    q: (int, int, int),
    r: (int, int, int),
    top: int,
    rest: int,
)
    requires
        within(p, top, rest),
        within(q, top, rest),
        within(r, top, rest),
        top >= 1,
        rest >= 1,
        6 * (top * (rest * rest)) <= most_ones(),
    ensures
        determinant(whole_matrix(p, q, r)) == ones_of(det3(p, q, r)),
        -(6 * (top * (rest * rest))) <= det3(p, q, r) <= 6 * (top * (rest * rest)),
{
    let s = rest * rest;
    let t = top * s;
    assert(s >= 1 && rest <= s) by (nonlinear_arith)
        requires
            rest >= 1,
            s == rest * rest,
    ;
    assert(s <= t && top <= t) by (nonlinear_arith)
        requires
            top >= 1,
            s >= 1,
            t == top * s,
    ;
    cofactor(q.1, r.2, r.1, q.2, p.0, top, rest);
    cofactor(p.1, r.2, r.1, p.2, q.0, top, rest);
    cofactor(p.1, q.2, q.1, p.2, r.0, top, rest);
    let (x, y, z) = (
        p.0 * (q.1 * r.2 - r.1 * q.2),
        q.0 * (p.1 * r.2 - r.1 * p.2),
        r.0 * (p.1 * q.2 - q.1 * p.2),
    );
    whole_arithmetic(x, y);
    whole_arithmetic(x - y, z);
}

/// One term of a determinant is exact.
proof fn cofactor(e: int, i: int, f: int, h: int, a: int, top: int, rest: int)
    requires
        -rest <= e <= rest,
        -rest <= i <= rest,
        -rest <= f <= rest,
        -rest <= h <= rest,
        -top <= a <= top,
        top >= 1,
        rest >= 1,
        rest <= rest * rest,
        rest * rest <= top * (rest * rest),
        top <= top * (rest * rest),
        6 * (top * (rest * rest)) <= most_ones(),
    ensures
        Wide::product(
            ones_of(a),
            Wide::difference(
                Wide::product(ones_of(e), ones_of(i)),
                Wide::product(ones_of(f), ones_of(h)),
            ),
        ) == ones_of(a * (e * i - f * h)),
        -(2 * (top * (rest * rest))) <= a * (e * i - f * h) <= 2 * (top * (rest * rest)),
{
    let s = rest * rest;
    bounded_product(e, i, rest, rest);
    bounded_product(f, h, rest, rest);
    whole_arithmetic(e, i);
    whole_arithmetic(f, h);
    whole_arithmetic(e * i, f * h);
    let d = e * i - f * h;
    bounded_product(a, d, top, 2 * s);
    assert(top * (2 * s) == 2 * (top * s)) by (nonlinear_arith);
    whole_arithmetic(a, d);
}

/// The normal matrix of a band of whole numbers.
proof fn normal_is_whole(
    band: Seq<BandCell<Fixed>>,
    metric: Metric,
    plane: (int, int, int),
    k: int,
)
    requires
        all_on_plane(band, metric, plane, k),
        sums_fit(band.len() as int, k),
    ensures
        ({
            let n = band.len() as int;
            let (p, q, r) = columns_of(band);
            &&& normal_matrix(band) == whole_matrix(p, q, r)
            &&& within(p, n * k, n * (k * k))
            &&& within(q, n * k, n * (k * k))
            &&& within(r, n * k, n * (k * k))
        }),
{
    let n = band.len() as int;
    sums_bounded(n, k);
    terms_add_up(band, BandTerm::X0, n, metric, plane, k);
    terms_add_up(band, BandTerm::X1, n, metric, plane, k);
    terms_add_up(band, BandTerm::X0X0, n, metric, plane, k);
    terms_add_up(band, BandTerm::X0X1, n, metric, plane, k);
    terms_add_up(band, BandTerm::X1X1, n, metric, plane, k);
    ones_in_range(n);
    assert(<Fixed as Wide>::count_value(n as u64) == ones_of(n));
}

/// The columns of a band's normal matrix.
spec fn columns_of(band: Seq<BandCell<Fixed>>) -> (
    (int, int, int),
    (int, int, int),
    (int, int, int),
) {
    let n = band.len() as int;
    let s0 = term_total(band, BandTerm::X0, n);
    let s1 = term_total(band, BandTerm::X1, n);
    let s01 = term_total(band, BandTerm::X0X1, n);
    (
        (n, s0, s1),
        (s0, term_total(band, BandTerm::X0X0, n), s01),
        (s1, s01, term_total(band, BandTerm::X1X1, n)),
    )
}

/// A quotient of whole numbers that goes up is exact.
proof fn whole_quotient(a: int, d: int)
    requires
        d != 0,
        -most_ones() <= d <= most_ones(),
        -most_ones() <= a * d <= most_ones(),
        -most_ones() <= a <= most_ones(),
    ensures
        Wide::quotient(ones_of(a * d), ones_of(d)) == ones_of(a),
{
    let one = FIXED_ONE as int;
    ones_in_range(a * d);
    ones_in_range(d);
    ones_in_range(a);
    let (x, y) = (one * (a * d), one * d);
    assert(x * one == (one * a) * y) by (nonlinear_arith)
        requires
            x == one * (a * d),
            y == one * d,
    ;
    let q = one * a;
    if d > 0 {
        assert((q * y) / y == q) by (nonlinear_arith)
            requires
                y > 0,
        ;
    } else {
        assert((-(q * y)) / (-y) == q) by (nonlinear_arith)
            requires
                y < 0,
        ;
    }
}

proof fn product_not_negative(a: Fixed, b: Fixed)
    requires
        a.steps >= 0,
        b.steps >= 0,
    ensures
        Wide::product(a, b).steps >= 0,
{
    let (x, y) = (a.steps as int, b.steps as int);
    assert((x * y) / (FIXED_ONE as int) >= 0) by (nonlinear_arith)
        requires
            x >= 0,
            y >= 0,
            FIXED_ONE > 0,
    ;
}

proof fn squares_not_negative(band: Seq<BandCell<Fixed>>, count: int)
    ensures
        term_total(band, BandTerm::X0X0, count) >= 0,
        term_total(band, BandTerm::X1X1, count) >= 0,
    decreases count,
{
    if count > 0 {
        squares_not_negative(band, count - 1);
        let (x, y) = (ones(band[count - 1].x0), ones(band[count - 1].x1));
        assert(x * x >= 0) by (nonlinear_arith);
        assert(y * y >= 0) by (nonlinear_arith);
    }
}

/// The slopes fitted to a band whose cells lie on a plane `c + a * x0 + b * x1` are `a` and
/// `b`, in every metric, where the plane does not fall and the band pins the slopes down.
/// Coordinates and values are whole, and small enough for their sums to be in range.
pub proof fn slopes_are_those_of_the_plane(
    band: Seq<BandCell<Fixed>>,
    metric: Metric,
    plane: (int, int, int),
    k: int,
)
    requires
        all_on_plane(band, metric, plane, k),
        sums_fit(band.len() as int, k),
        0 <= plane.1 <= most_ones(),
        0 <= plane.2 <= most_ones(),
        band_slopes(band) is Some,
    ensures
        steps_of(band_slopes(band)->0.axis0, metric) == FIXED_ONE * plane.1,
        steps_of(band_slopes(band)->0.axis1, metric) == FIXED_ONE * plane.2,
{
    let n = band.len() as int;
    let (c, a, b) = plane;
    let (p, q, r) = columns_of(band);
    let (top, rest) = (n * k, n * (k * k));
    let m = normal_matrix(band);
    let d = det3(p, q, r);
    sums_bounded(n, k);
    normal_is_whole(band, metric, plane, k);
    determinant_is_exact(p, q, r, top, rest);
    assert(d != 0) by {
        if d == 0 {
            squares_not_negative(band, n);
            ones_in_range(q.1);
            ones_in_range(r.2);
            ones_in_range(n);
            let step = <Fixed as Wide>::step_value();
            product_not_negative(step, m.row0.0);
            product_not_negative(Wide::product(step, m.row0.0), m.row1.1);
            product_not_negative(
                Wide::product(Wide::product(step, m.row0.0), m.row1.1),
                m.row2.2,
            );
            assert(determinant(m).steps == 0);
            assert(is_degenerate(m));
        }
    }
    observations_add_up(band, n, metric, plane, k);
    observations_follow_plane(band, plane, n);
    let rhs = value_totals(band, plane, n);
    assert(rhs == mixed(c, a, b, p, q, r));
    assert(with_column(m, 0, observed_sums(band, metric, n)) == whole_matrix(p, rhs, r));
    assert(with_column(m, 1, observed_sums(band, metric, n)) == whole_matrix(p, q, rhs));
    determinant_is_exact(p, rhs, r, top, rest);
    determinant_is_exact(p, q, rhs, top, rest);
    mix_in_second(p, q, r, c, a, b);
    mix_in_third(p, q, r, c, a, b);
    whole_quotient(a, d);
    whole_quotient(b, d);
    ones_in_range(a);
    ones_in_range(b);
    assert(fitted_slope(band, metric, 0) == ones_of(a));
    assert(fitted_slope(band, metric, 1) == ones_of(b));
    assert(metric_of(fitted_axis(band, 0), metric) == fitted_slope(band, metric, 0));
    assert(metric_of(fitted_axis(band, 1), metric) == fitted_slope(band, metric, 1));
}

/// The cells of a table's top band are cells of the table.
proof fn band_cells_on_plane(
    xs0: Seq<Fixed>,
    xs1: Seq<Fixed>,
    cells: Seq<Option<Metrics4<Fixed>>>,
    count: int,
    metric: Metric,
    plane: (int, int, int),
    k: int,
)
    requires
        0 <= count <= cells.len(),
        cells.len() == xs0.len() * xs1.len(),
        follows_surface(xs0, xs1, cells, metric, (plane.0, plane.1, plane.2, 0)),
        points_whole(xs0, k),
        points_whole(xs1, k),
        values_within(xs0, xs1, plane, k),
    ensures
        all_on_plane(top_band(xs0, xs1, cells, count), metric, plane, k),
        top_band(xs0, xs1, cells, count).len() <= count,
    decreases count,
{
    if count > 0 {
        band_cells_on_plane(xs0, xs1, cells, count - 1, metric, plane, k);
        let earlier = top_band(xs0, xs1, cells, count - 1);
        let columns = xs1.len() as int;
        let rows = xs0.len() as int;
        let at = count - 1;
        assert(columns > 0 && 0 <= at / columns < rows && 0 <= at % columns < columns && (at
            / columns) * columns + at % columns == at) by (nonlinear_arith)
            requires
                0 <= at < rows * columns,
                rows >= 0,
                columns >= 0,
        ;
        let (i, j) = (at / columns, at % columns);
        assert(cell_2d(cells, columns, i, j) == cells[at]->0);
        let (x, y) = (ones(xs0[i]), ones(xs1[j]));
        assert(0 * (x * y) == 0);
        assert(-k <= plane_value(plane, x, y) <= k);
        let all = top_band(xs0, xs1, cells, count);
        assert forall|q: int| 0 <= q < all.len() implies on_plane(
            #[trigger] all[q],
            metric,
            plane,
            k,
        ) by {
            if q < earlier.len() {
                assert(all[q] == earlier[q]);
            }
        }
    }
}

/// The value of a plane.
pub open spec fn plane_value(plane: (int, int, int), x: int, y: int) -> int {
    plane.0 + plane.1 * x + plane.2 * y
}

/// Whether the points of an axis are whole and at most `k`.
pub open spec fn points_whole(xs: Seq<Fixed>, k: int) -> bool {
    forall|i: int|
        0 <= i < xs.len() ==> is_whole(#[trigger] xs[i]) && -k <= ones(xs[i]) <= k
}

/// Whether a plane over the points of two axes is at most `k`.
pub open spec fn values_within(
    xs0: Seq<Fixed>,
    xs1: Seq<Fixed>,
    plane: (int, int, int),
    k: int,
) -> bool {
    forall|i: int, j: int|
        0 <= i < xs0.len() && 0 <= j < xs1.len() ==> -k <= #[trigger] plane_value(
            plane,
            ones(xs0[i]),
            ones(xs1[j]),
        ) <= k
}

/// A weighted table of samples on a plane continues the plane past its ends, in every
/// metric: at and beyond both of its last points it reads `c + a * x0 + b * x1`. Points and
/// samples are whole, the plane does not fall, and everything stays in range.
pub proof fn weighted_table_continues_plane(
    xs0: Seq<Fixed>,
    xs1: Seq<Fixed>,
    cells: Seq<Option<Metrics4<Fixed>>>,
    x0: Fixed,
    x1: Fixed,
    metric: Metric,
    plane: (int, int, int),
    k: int,
)
    requires
        cells.len() == xs0.len() * xs1.len(),
        cells.len() <= usize::MAX,
        xs0.len() <= usize::MAX,
        xs1.len() <= usize::MAX,
        all_present(cells),
        in_order(xs0),
        in_order(xs1),
        lies_finely(xs0, xs0.last()),
        lies_finely(xs1, xs1.last()),
        follows_surface(xs0, xs1, cells, metric, (plane.0, plane.1, plane.2, 0)),
        points_whole(xs0, k),
        points_whole(xs1, k),
        values_within(xs0, xs1, plane, k),
        sums_fit(cells.len() as int, k),
        0 <= plane.1 <= most_ones(),
        0 <= plane.2 <= most_ones(),
        table_slopes(xs0, xs1, cells) is Some,
        x0.steps >= xs0.last().steps,
        x1.steps >= xs1.last().steps,
        fits(plane.0 * FIXED_ONE + plane.1 * x0.steps + plane.2 * x1.steps),
        fits(x0.steps - xs0.last().steps),
        fits(x1.steps - xs1.last().steps),
        fits(plane.1 * (x0.steps - xs0.last().steps)),
        fits(plane.2 * (x1.steps - xs1.last().steps)),
    ensures
        steps_of(
            policy_reading(
                xs0,
                xs1,
                cells,
                Extrapolation::Weighted,
                table_slopes(xs0, xs1, cells),
                x0,
                x1,
            ).0,
            metric,
        ) == plane.0 * FIXED_ONE + plane.1 * x0.steps + plane.2 * x1.steps,
{
    let one = FIXED_ONE as int;
    let (c, a, b) = plane;
    let band = top_band(xs0, xs1, cells, cells.len() as int);
    band_cells_on_plane(xs0, xs1, cells, cells.len() as int, metric, plane, k);
    smaller_sums_fit(cells.len() as int, band.len() as int, k);
    slopes_are_those_of_the_plane(band, metric, plane, k);
    let slopes = table_slopes(xs0, xs1, cells)->0;
    let (end0, end1) = (xs0.last(), xs1.last());
    grid_reads_surface_back(xs0, xs1, cells, end0, end1, metric, (c, a, b, 0));
    let boundary = steps_of(bilinear(xs0, xs1, cells, end0, end1).0, metric);
    let (y0, y1) = (end0.steps as int, end1.steps as int);
    assert(0 * (y0 * y1) == 0);
    assert(c * (one * one) + a * y0 * one + b * y1 * one == one * (c * one + a * y0 + b * y1))
        by (nonlinear_arith);
    assert(boundary == c * one + a * y0 + b * y1);
    let over0 = Fixed { steps: (x0.steps - y0) as i64 };
    let over1 = Fixed { steps: (x1.steps - y1) as i64 };
    slope_gains(metric_of(slopes.axis0, metric), a, over0);
    slope_gains(metric_of(slopes.axis1, metric), b, over1);
    let (z0, z1) = (x0.steps as int, x1.steps as int);
    assert(a * z0 == a * y0 + a * (z0 - y0)) by (nonlinear_arith);
    assert(b * z1 == b * y1 + b * (z1 - y1)) by (nonlinear_arith);
    assert(Scalar::sum(end0, over0) == x0 && Scalar::sum(end1, over1) == x1);
    overshoot_steps(xs0, xs1, cells, over0, over1, metric);
}

/// A whole slope gains its multiple of an overshoot.
proof fn slope_gains(slope: Fixed, a: int, over: Fixed)
    requires
        slope.steps == FIXED_ONE * a,
        fits(a * over.steps),
    ensures
        gained(slope, over) == a * over.steps,
{
    let one = FIXED_ONE as int;
    let o = over.steps as int;
    assert((one * a) * o == one * (a * o)) by (nonlinear_arith);
    let p = a * o;
    assert((one * p) / one == p) by (nonlinear_arith)
        requires
            one == 1048576,
    ;
}

/// Fewer cells have smaller sums.
proof fn smaller_sums_fit(n: int, m: int, k: int)
    requires
        sums_fit(n, k),
        1 <= m <= n,
    ensures
        sums_fit(m, k),
{
    let s = k * k;
    assert(s >= 1) by (nonlinear_arith)
        requires
            k >= 1,
            s == k * k,
    ;
    let (p, q) = (m * k, n * k);
    let (u, v) = (m * s, n * s);
    assert(1 <= p <= q) by (nonlinear_arith)
        requires
            1 <= m <= n,
            k >= 1,
            p == m * k,
            q == n * k,
    ;
    assert(1 <= u <= v) by (nonlinear_arith)
        requires
            1 <= m <= n,
            s >= 1,
            u == m * s,
            v == n * s,
    ;
    assert(u * u <= v * v) by (nonlinear_arith)
        requires
            1 <= u <= v,
    ;
    let (uu, vv) = (u * u, v * v);
    assert(p * uu <= q * vv) by (nonlinear_arith)
        requires
            1 <= p <= q,
            0 <= uu <= vv,
    ;
}

} // verus!
