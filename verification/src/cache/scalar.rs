//! The numbers that a table is held in.
//!
//! Tables are generic over their number type. What a table computes is stated over
//! the operations that the number type names, in the order in which they are applied,
//! so it holds as well of a type that rounds. Only the order of numbers is fixed:
//! every defined number has a rank, and comparisons go by it. The points of an axis come
//! in the wide type, and each table narrows them to its own.

use vstd::prelude::*;

verus! {

/// A number type wide enough to add up many products. The spec functions name what its
/// operations return. What is proved of a table holds of a number type that defines them
/// all; the defaults, one unknown value each, serve a type that nothing is proved of.
pub trait Wide: Copy {
    /// The place of a defined number in the order of numbers.
    closed spec fn rank(self) -> int {
        arbitrary()
    }

    /// The place in the order that the points of an axis are sorted in. It follows the
    /// order of numbers, and may tell apart numbers that compare as equal.
    closed spec fn place(self) -> int {
        arbitrary()
    }

    /// Whether this stands for no number.
    closed spec fn undefined(self) -> bool {
        arbitrary()
    }

    closed spec fn finite(self) -> bool {
        arbitrary()
    }

    closed spec fn count_value(count: u64) -> Self {
        arbitrary()
    }

    /// The number `numerator / denominator`; over zero it may be undefined.
    closed spec fn ratio_value(numerator: u64, denominator: u64) -> Self {
        arbitrary()
    }

    closed spec fn sum(self, other: Self) -> Self {
        arbitrary()
    }

    closed spec fn difference(self, other: Self) -> Self {
        arbitrary()
    }

    closed spec fn product(self, other: Self) -> Self {
        arbitrary()
    }

    closed spec fn quotient(self, other: Self) -> Self {
        arbitrary()
    }

    closed spec fn magnitude(self) -> Self {
        arbitrary()
    }

    /// The number without its fraction, within the range of a count.
    closed spec fn count_part(self) -> u64 {
        arbitrary()
    }

    /// The smallest step above one.
    closed spec fn step_value() -> Self {
        arbitrary()
    }

    fn from_count(count: u64) -> (r: Self)
        ensures
            r == Self::count_value(count),
    ;

    fn from_ratio(numerator: u64, denominator: u64) -> (r: Self)
        ensures
            r == Self::ratio_value(numerator, denominator),
            denominator > 0 ==> !r.undefined(),
    ;

    fn plus(self, other: Self) -> (r: Self)
        ensures
            r == self.sum(other),
    ;

    fn minus(self, other: Self) -> (r: Self)
        ensures
            r == self.difference(other),
    ;

    fn times(self, other: Self) -> (r: Self)
        ensures
            r == self.product(other),
    ;

    fn over(self, other: Self) -> (r: Self)
        ensures
            r == self.quotient(other),
    ;

    fn abs(self) -> (r: Self)
        ensures
            r == self.magnitude(),
    ;

    fn as_count(self) -> (r: u64)
        ensures
            r == self.count_part(),
    ;

    fn epsilon() -> (r: Self)
        ensures
            r == Self::step_value(),
    ;

    fn is_finite(self) -> (r: bool)
        ensures
            r == self.finite(),
    ;

    fn at_most(self, other: Self) -> (r: bool)
        ensures
            r == (!self.undefined() && !other.undefined() && self.rank() <= other.rank()),
    ;

    fn sorts_before(self, other: Self) -> (r: bool)
        ensures
            r == (self.place() < other.place()),
    ;
}

/// Whether two defined numbers stand in this order.
pub open spec fn wide_at_most<W: Wide>(a: W, b: W) -> bool {
    !a.undefined() && !b.undefined() && a.rank() <= b.rank()
}

/// The number type of a table. The spec functions name what its operations return. What is
/// proved of a table holds of a number type that defines them all; the defaults, one
/// unknown value each, serve a type that nothing is proved of.
pub trait Scalar: Copy {
    /// The type that sums of products are taken in.
    type Wide: Wide;

    /// The place of a defined number in the order of numbers.
    closed spec fn rank(self) -> int {
        arbitrary()
    }

    /// Whether this stands for no number.
    closed spec fn undefined(self) -> bool {
        arbitrary()
    }

    closed spec fn finite(self) -> bool {
        arbitrary()
    }

    closed spec fn zero_value() -> Self {
        arbitrary()
    }

    closed spec fn one_value() -> Self {
        arbitrary()
    }

    closed spec fn count_value(count: u64) -> Self {
        arbitrary()
    }

    closed spec fn sum(self, other: Self) -> Self {
        arbitrary()
    }

    closed spec fn difference(self, other: Self) -> Self {
        arbitrary()
    }

    closed spec fn product(self, other: Self) -> Self {
        arbitrary()
    }

    closed spec fn quotient(self, other: Self) -> Self {
        arbitrary()
    }

    /// Whether the number is too close to zero to divide by.
    closed spec fn tiny(self) -> bool {
        arbitrary()
    }

    /// Whether the number is farther from zero than rounding.
    closed spec fn notable(self) -> bool {
        arbitrary()
    }

    /// The number without its fraction, within the range of an index.
    closed spec fn index_value(self) -> usize {
        arbitrary()
    }

    /// The fraction of a time by which the next one may fall short of it.
    closed spec fn tolerance_value() -> Self {
        arbitrary()
    }

    /// The fraction of an axis's end below which a point says nothing of the slope.
    closed spec fn band_value() -> Self {
        arbitrary()
    }

    /// Whether two steps of an axis count as equal.
    closed spec fn same_step(self, spacing: Self) -> bool {
        arbitrary()
    }

    closed spec fn widened(self) -> Self::Wide {
        arbitrary()
    }

    closed spec fn narrowed(wide: Self::Wide) -> Self {
        arbitrary()
    }

    fn zero() -> (r: Self)
        ensures
            r == Self::zero_value(),
    ;

    fn one() -> (r: Self)
        ensures
            r == Self::one_value(),
    ;

    fn from_count(count: u64) -> (r: Self)
        ensures
            r == Self::count_value(count),
    ;

    fn plus(self, other: Self) -> (r: Self)
        ensures
            r == self.sum(other),
    ;

    fn minus(self, other: Self) -> (r: Self)
        ensures
            r == self.difference(other),
    ;

    fn times(self, other: Self) -> (r: Self)
        ensures
            r == self.product(other),
    ;

    fn over(self, other: Self) -> (r: Self)
        ensures
            r == self.quotient(other),
    ;

    fn is_tiny(self) -> (r: bool)
        ensures
            r == self.tiny(),
    ;

    fn is_notable(self) -> (r: bool)
        ensures
            r == self.notable(),
    ;

    fn is_nan(self) -> (r: bool)
        ensures
            r == self.undefined(),
    ;

    fn is_finite(self) -> (r: bool)
        ensures
            r == self.finite(),
    ;

    fn as_index(self) -> (r: usize)
        ensures
            r == self.index_value(),
    ;

    fn tolerance() -> (r: Self)
        ensures
            r == Self::tolerance_value(),
    ;

    fn band_fraction() -> (r: Self)
        ensures
            r == Self::band_value(),
    ;

    fn is_step(self, spacing: Self) -> (r: bool)
        ensures
            r == self.same_step(spacing),
    ;

    /// Widening keeps numbers apart that differ in order.
    fn widen(self) -> (r: Self::Wide)
        ensures
            r == self.widened(),
            forall|other: Self|
                !self.undefined() && !other.undefined() && r.place() <= (
                #[trigger] other.widened()).place() ==> self.rank() <= other.rank(),
    ;

    /// Narrowing may bring numbers together, but never out of order.
    fn narrow(wide: Self::Wide) -> (r: Self)
        ensures
            r == Self::narrowed(wide),
            !wide.undefined() ==> !r.undefined(),
            forall|other: Self::Wide|
                !wide.undefined() && !other.undefined() && wide.place() <= other.place()
                    ==> r.rank() <= (#[trigger] Self::narrowed(other)).rank(),
    ;

    fn at_most(self, other: Self) -> (r: bool)
        ensures
            r == (!self.undefined() && !other.undefined() && self.rank() <= other.rank()),
    ;

    fn below(self, other: Self) -> (r: bool)
        ensures
            r == (!self.undefined() && !other.undefined() && self.rank() < other.rank()),
    ;
}

/// Whether two defined numbers stand in this order.
pub open spec fn ranks_at_most<S: Scalar>(a: S, b: S) -> bool {
    !a.undefined() && !b.undefined() && a.rank() <= b.rank()
}

/// Whether two defined numbers stand in this order and differ.
pub open spec fn ranks_below<S: Scalar>(a: S, b: S) -> bool {
    !a.undefined() && !b.undefined() && a.rank() < b.rank()
}

/// The number, or zero where it is negative or undefined.
pub open spec fn floored<S: Scalar>(value: S) -> S {
    if ranks_at_most(S::zero_value(), value) {
        value
    } else {
        S::zero_value()
    }
}

/// The number, or zero where it is negative or undefined.
pub fn at_least_zero<S: Scalar>(value: S) -> (r: S)
    ensures
        r == floored(value),
{
    if S::zero().at_most(value) {
        value
    } else {
        S::zero()
    }
}

/// The number, or the nearer end of the range where it is outside.
pub open spec fn confined<S: Scalar>(value: S, low: S, high: S) -> S {
    if ranks_below(value, low) {
        low
    } else if ranks_below(high, value) {
        high
    } else {
        value
    }
}

/// The number, or the nearer end of the range where it is outside.
pub fn confine<S: Scalar>(value: S, low: S, high: S) -> (r: S)
    ensures
        r == confined(value, low, high),
{
    if value.below(low) {
        low
    } else if high.below(value) {
        high
    } else {
        value
    }
}

/// A number type in which zero and one are neutral as in arithmetic.
pub trait NeutralElements: Scalar {
    proof fn defined(value: Self)
        ensures
            !value.undefined(),
    ;

    /// A number less itself is zero, and zero over any number is zero.
    proof fn no_distance(value: Self, width: Self)
        ensures
            value.difference(value) == Self::zero_value(),
            Self::zero_value().quotient(width) == Self::zero_value(),
    ;

    /// A width that can be divided by goes into itself once.
    proof fn whole_distance(width: Self)
        requires
            !width.tiny(),
        ensures
            width.quotient(width) == Self::one_value(),
    ;

    proof fn complements()
        ensures
            Self::one_value().difference(Self::zero_value()) == Self::one_value(),
            Self::one_value().difference(Self::one_value()) == Self::zero_value(),
            !Self::zero_value().notable(),
    ;

    /// One and zero are neutral and absorbing in products, zero is neutral in sums.
    proof fn neutral(value: Self)
        ensures
            value.product(Self::one_value()) == value,
            value.product(Self::zero_value()) == Self::zero_value(),
            Self::one_value().product(value) == value,
            Self::zero_value().product(value) == Self::zero_value(),
            Self::zero_value().sum(value) == value,
            value.sum(Self::zero_value()) == value,
    ;
}

/// How many steps of a fixed-point number make one.
pub const FIXED_ONE: i64 = 1048576;

/// A fixed-point number that stops at the ends of its range.
#[derive(Clone, Copy, Debug, PartialEq, Eq, Hash, Structural)]
pub struct Fixed {
    pub steps: i64,
}

/// The nearest number in range.
pub open spec fn in_range(steps: int) -> Fixed {
    Fixed {
        steps: if steps < i64::MIN {
            i64::MIN
        } else if steps > i64::MAX {
            i64::MAX
        } else {
            steps as i64
        },
    }
}

fn saturate(steps: i128) -> (r: Fixed)
    ensures
        r == in_range(steps as int),
{
    if steps < i64::MIN as i128 {
        Fixed { steps: i64::MIN }
    } else if steps > i64::MAX as i128 {
        Fixed { steps: i64::MAX }
    } else {
        Fixed { steps: steps as i64 }
    }
}

pub open spec fn fixed_product(a: Fixed, b: Fixed) -> Fixed {
    in_range((a.steps * b.steps) / (FIXED_ONE as int))
}

/// The quotient rounded down; zero over a number of no size.
pub open spec fn fixed_quotient(a: Fixed, b: Fixed) -> Fixed {
    if b.steps == 0 {
        Fixed { steps: 0 }
    } else if b.steps > 0 {
        in_range((a.steps * FIXED_ONE) / (b.steps as int))
    } else {
        in_range((-(a.steps * FIXED_ONE)) / (-(b.steps as int)))
    }
}

/// Division of a wide number by a positive one, rounded down.
fn divide_down(a: i128, b: i128) -> (r: i128)
    requires
        b > 0,
        a > i128::MIN,
    ensures
        r == a as int / b as int,
{
    if a >= 0 {
        a / b
    } else {
        let n: i128 = -a;
        let up: i128 = (n - 1) / b + 1;
        proof {
            let q = (n - 1) / b as int;
            let t = (n - 1) % b as int;
            assert(n - 1 == b * q + t && 0 <= t < b) by (nonlinear_arith)
                requires
                    b > 0,
                    q == (n - 1) / b as int,
                    t == (n - 1) % b as int,
            ;
            assert(a as int == b * (-(q + 1)) + (b - 1 - t)) by (nonlinear_arith)
                requires
                    n == -a,
                    n - 1 == b * q + t,
            ;
            vstd::arithmetic::div_mod::lemma_fundamental_div_mod_converse(
                a as int,
                b as int,
                -(q + 1),
                b - 1 - t,
            );
        }
        -up
    }
}

fn multiply(a: Fixed, b: Fixed) -> (r: Fixed)
    ensures
        r == fixed_product(a, b),
{
    proof {
        product_bound(a.steps as int, b.steps as int);
    }
    saturate(divide_down(a.steps as i128 * b.steps as i128, FIXED_ONE as i128))
}

fn divide(a: Fixed, b: Fixed) -> (r: Fixed)
    ensures
        r == fixed_quotient(a, b),
{
    proof {
        product_bound(a.steps as int, FIXED_ONE as int);
    }
    let scaled: i128 = a.steps as i128 * FIXED_ONE as i128;
    if b.steps == 0 {
        Fixed { steps: 0 }
    } else if b.steps > 0 {
        saturate(divide_down(scaled, b.steps as i128))
    } else {
        saturate(divide_down(-scaled, -(b.steps as i128)))
    }
}

proof fn count_bound(count: int)
    requires
        0 <= count <= u64::MAX,
    ensures
        0 <= count * FIXED_ONE <= 0x4000_0000_0000_0000_0000_0000_0000_0000,
{
}

proof fn product_bound(a: int, b: int)
    requires
        i64::MIN <= a <= i64::MAX,
        i64::MIN <= b <= i64::MAX,
    ensures
        -0x4000_0000_0000_0000_0000_0000_0000_0000 <= a * b
            <= 0x4000_0000_0000_0000_0000_0000_0000_0000,
{
    assert(-0x4000_0000_0000_0000_0000_0000_0000_0000 <= a * b
        <= 0x4000_0000_0000_0000_0000_0000_0000_0000) by (nonlinear_arith)
        requires
            -0x8000_0000_0000_0000 <= a <= 0x8000_0000_0000_0000,
            -0x8000_0000_0000_0000 <= b <= 0x8000_0000_0000_0000,
    ;
}

impl Wide for Fixed {
    open spec fn rank(self) -> int {
        self.steps as int
    }

    open spec fn place(self) -> int {
        self.steps as int
    }

    open spec fn undefined(self) -> bool {
        false
    }

    open spec fn finite(self) -> bool {
        true
    }

    open spec fn count_value(count: u64) -> Self {
        in_range(count * FIXED_ONE)
    }

    open spec fn ratio_value(numerator: u64, denominator: u64) -> Self {
        if denominator == 0 {
            Fixed { steps: 0 }
        } else {
            in_range((numerator * FIXED_ONE) / (denominator as int))
        }
    }

    open spec fn sum(self, other: Self) -> Self {
        in_range(self.steps + other.steps)
    }

    open spec fn difference(self, other: Self) -> Self {
        in_range(self.steps - other.steps)
    }

    open spec fn product(self, other: Self) -> Self {
        fixed_product(self, other)
    }

    open spec fn quotient(self, other: Self) -> Self {
        fixed_quotient(self, other)
    }

    open spec fn magnitude(self) -> Self {
        in_range(
            if self.steps < 0 {
                -self.steps
            } else {
                self.steps as int
            },
        )
    }

    open spec fn count_part(self) -> u64 {
        let whole = self.steps as int / (FIXED_ONE as int);
        if whole < 0 {
            0
        } else {
            whole as u64
        }
    }

    open spec fn step_value() -> Self {
        Fixed { steps: 1 }
    }

    fn from_count(count: u64) -> (r: Self) {
        proof {
            count_bound(count as int);
        }
        saturate(count as i128 * FIXED_ONE as i128)
    }

    fn from_ratio(numerator: u64, denominator: u64) -> (r: Self) {
        if denominator == 0 {
            return Fixed { steps: 0 };
        }
        proof {
            assert(0 <= numerator * FIXED_ONE <= 0x1_0000_0000_0000_0000 * FIXED_ONE)
                by (nonlinear_arith)
                requires
                    numerator <= 0x1_0000_0000_0000_0000,
                    FIXED_ONE >= 0,
            ;
        }
        saturate(divide_down(numerator as i128 * FIXED_ONE as i128, denominator as i128))
    }

    fn plus(self, other: Self) -> (r: Self) {
        saturate(self.steps as i128 + other.steps as i128)
    }

    fn minus(self, other: Self) -> (r: Self) {
        saturate(self.steps as i128 - other.steps as i128)
    }

    fn times(self, other: Self) -> (r: Self) {
        multiply(self, other)
    }

    fn over(self, other: Self) -> (r: Self) {
        divide(self, other)
    }

    fn abs(self) -> (r: Self) {
        if self.steps < 0 {
            saturate(-(self.steps as i128))
        } else {
            self
        }
    }

    fn as_count(self) -> (r: u64) {
        let whole: i128 = divide_down(self.steps as i128, FIXED_ONE as i128);
        if whole < 0 {
            0
        } else {
            whole as u64
        }
    }

    fn epsilon() -> (r: Self) {
        Fixed { steps: 1 }
    }

    fn is_finite(self) -> (r: bool) {
        true
    }

    fn at_most(self, other: Self) -> (r: bool) {
        self.steps <= other.steps
    }

    fn sorts_before(self, other: Self) -> (r: bool) {
        self.steps < other.steps
    }
}

impl Scalar for Fixed {
    type Wide = Fixed;

    open spec fn rank(self) -> int {
        self.steps as int
    }

    open spec fn undefined(self) -> bool {
        false
    }

    open spec fn finite(self) -> bool {
        true
    }

    open spec fn zero_value() -> Self {
        Fixed { steps: 0 }
    }

    open spec fn one_value() -> Self {
        Fixed { steps: FIXED_ONE }
    }

    open spec fn count_value(count: u64) -> Self {
        in_range(count * FIXED_ONE)
    }

    open spec fn sum(self, other: Self) -> Self {
        in_range(self.steps + other.steps)
    }

    open spec fn difference(self, other: Self) -> Self {
        in_range(self.steps - other.steps)
    }

    open spec fn product(self, other: Self) -> Self {
        fixed_product(self, other)
    }

    open spec fn quotient(self, other: Self) -> Self {
        fixed_quotient(self, other)
    }

    open spec fn tiny(self) -> bool {
        self.steps == 0
    }

    open spec fn notable(self) -> bool {
        self.steps != 0
    }

    open spec fn index_value(self) -> usize {
        let whole = self.steps as int / (FIXED_ONE as int);
        if whole < 0 {
            0
        } else if whole > usize::MAX {
            usize::MAX
        } else {
            whole as usize
        }
    }

    open spec fn tolerance_value() -> Self {
        Fixed { steps: 104858 }
    }

    open spec fn band_value() -> Self {
        Fixed { steps: 262144 }
    }

    open spec fn same_step(self, spacing: Self) -> bool {
        self.steps == spacing.steps
    }

    open spec fn widened(self) -> Fixed {
        self
    }

    open spec fn narrowed(wide: Fixed) -> Self {
        wide
    }

    fn zero() -> (r: Self) {
        Fixed { steps: 0 }
    }

    fn one() -> (r: Self) {
        Fixed { steps: FIXED_ONE }
    }

    fn from_count(count: u64) -> (r: Self) {
        proof {
            count_bound(count as int);
        }
        saturate(count as i128 * FIXED_ONE as i128)
    }

    fn plus(self, other: Self) -> (r: Self) {
        saturate(self.steps as i128 + other.steps as i128)
    }

    fn minus(self, other: Self) -> (r: Self) {
        saturate(self.steps as i128 - other.steps as i128)
    }

    fn times(self, other: Self) -> (r: Self) {
        multiply(self, other)
    }

    fn over(self, other: Self) -> (r: Self) {
        divide(self, other)
    }

    fn is_tiny(self) -> (r: bool) {
        self.steps == 0
    }

    fn is_notable(self) -> (r: bool) {
        self.steps != 0
    }

    fn is_nan(self) -> (r: bool) {
        false
    }

    fn is_finite(self) -> (r: bool) {
        true
    }

    fn as_index(self) -> (r: usize) {
        let whole: i128 = divide_down(self.steps as i128, FIXED_ONE as i128);
        if whole < 0 {
            0
        } else if whole > usize::MAX as i128 {
            usize::MAX
        } else {
            whole as usize
        }
    }

    fn tolerance() -> (r: Self) {
        Fixed { steps: 104858 }
    }

    fn band_fraction() -> (r: Self) {
        Fixed { steps: 262144 }
    }

    fn is_step(self, spacing: Self) -> (r: bool) {
        self.steps == spacing.steps
    }

    fn widen(self) -> (r: Fixed) {
        assert(forall|other: Fixed|
            Wide::place(self) <= Wide::place(#[trigger] Scalar::widened(other)) ==> Scalar::rank(self)
                <= Scalar::rank(other));
        self
    }

    fn narrow(wide: Fixed) -> (r: Self) {
        assert(forall|other: Fixed|
            Wide::place(wide) <= Wide::place(other) ==> Scalar::rank(wide) <= Scalar::rank(
                #[trigger] <Fixed as Scalar>::narrowed(other),
            ));
        wide
    }

    fn at_most(self, other: Self) -> (r: bool) {
        self.steps <= other.steps
    }

    fn below(self, other: Self) -> (r: bool) {
        self.steps < other.steps
    }
}

impl NeutralElements for Fixed {
    proof fn defined(value: Self) {
    }

    proof fn no_distance(value: Self, width: Self) {
        if width.steps > 0 {
            assert(0int / (width.steps as int) == 0) by (nonlinear_arith)
                requires
                    width.steps > 0,
            ;
        } else if width.steps < 0 {
            assert(0int / (-(width.steps as int)) == 0) by (nonlinear_arith)
                requires
                    width.steps < 0,
            ;
        }
    }

    proof fn whole_distance(width: Self) {
        let w = width.steps as int;
        if w > 0 {
            assert((w * FIXED_ONE) / w == FIXED_ONE) by (nonlinear_arith)
                requires
                    w > 0,
            ;
        } else {
            assert((-(w * FIXED_ONE)) / (-w) == FIXED_ONE) by (nonlinear_arith)
                requires
                    w < 0,
            ;
        }
    }

    proof fn complements() {
    }

    proof fn neutral(value: Self) {
        let v = value.steps as int;
        assert((v * FIXED_ONE) / (FIXED_ONE as int) == v && (FIXED_ONE * v) / (FIXED_ONE as int)
            == v && v * 0 == 0 && 0 * v == 0);
    }
}

} // verus!
