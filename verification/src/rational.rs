//! Exact rational numbers: the common representation behind every quantity
//! type, and the spec-level pair algebra that all scale contracts speak of.

use vstd::prelude::*;

verus! {

/// Largest magnitude a quantity handed to the scale operations may take, for
/// its numerator as well as its denominator. Chosen so that every
/// intermediate product of the scale algebra, through normalization followed
/// by interpolation, stays within the 128-bit integer type.
pub const QUANTITY_BOUND: i128 = 131072;

/// Bound satisfied by every fraction that `norm` produces and accepted by
/// `lerp`: twice the fourth power of `QUANTITY_BOUND`.
pub const FRACTION_BOUND: i128 = 590295810358705651712;

/// Whether a mathematical integer is representable as an `i128`.
pub open spec fn fits(x: int) -> bool {
    i128::MIN as int <= x <= i128::MAX as int
}

/// An exact rational number. The denominator of a well-formed value is always
/// positive; the fraction is not necessarily in lowest terms, and equality of
/// values is the cross-multiplied equality `q_eq`.
#[derive(Clone, Copy, Debug)]
pub struct Rational {
    pub num: i128,
    pub den: i128,
}

impl View for Rational {
    type V = (int, int);

    open spec fn view(&self) -> (int, int) {
        (self.num as int, self.den as int)
    }
}

/// Value equality of two rational pairs.
pub open spec fn q_eq(a: (int, int), b: (int, int)) -> bool {
    a.0 * b.1 == b.0 * a.1
}

/// Value order of two rational pairs with positive denominators.
pub open spec fn q_le(a: (int, int), b: (int, int)) -> bool {
    a.0 * b.1 <= b.0 * a.1
}

/// Sum of two rational pairs.
pub open spec fn q_add(a: (int, int), b: (int, int)) -> (int, int) {
    (a.0 * b.1 + b.0 * a.1, a.1 * b.1)
}

/// Difference of two rational pairs.
pub open spec fn q_sub(a: (int, int), b: (int, int)) -> (int, int) {
    (a.0 * b.1 - b.0 * a.1, a.1 * b.1)
}

/// Product of two rational pairs.
pub open spec fn q_mul(a: (int, int), b: (int, int)) -> (int, int) {
    (a.0 * b.0, a.1 * b.1)
}

/// Quotient of two rational pairs, with the sign moved into the numerator so
/// that a positive denominator stays positive. Meaningful only when the
/// divisor's numerator is not zero.
pub open spec fn q_div(a: (int, int), b: (int, int)) -> (int, int) {
    if 0 <= b.0 {
        (a.0 * b.1, a.1 * b.0)
    } else {
        (-(a.0 * b.1), -(a.1 * b.0))
    }
}

/// The fraction at which a value sits between `min` and `max`: zero when the
/// range is degenerate, `(v - min) / (max - min)` otherwise.
pub open spec fn q_norm(min: (int, int), max: (int, int), v: (int, int)) -> (int, int) {
    if q_eq(min, max) {
        (0int, 1int)
    } else {
        q_div(q_sub(v, min), q_sub(max, min))
    }
}

/// The value at fraction `t` of the range: `min + t * (max - min)`.
pub open spec fn q_lerp(min: (int, int), max: (int, int), t: (int, int)) -> (int, int) {
    q_add(min, q_mul(t, q_sub(max, min)))
}

impl Rational {
    /// A well-formed rational has a positive denominator.
    pub open spec fn wf(self) -> bool {
        0 < self.den
    }

    /// Small enough to serve as a scale bound or a scale value.
    pub open spec fn bounded(self) -> bool {
        &&& -QUANTITY_BOUND <= self.num <= QUANTITY_BOUND
        &&& 0 < self.den <= QUANTITY_BOUND
    }

    /// Small enough to serve as a fraction handed to interpolation.
    pub open spec fn frac_bounded(self) -> bool {
        &&& -FRACTION_BOUND <= self.num <= FRACTION_BOUND
        &&& 0 < self.den <= FRACTION_BOUND
    }

    /// The rational `num / den`.
    pub fn new(num: i128, den: i128) -> (r: Rational)
        requires
            0 < den,
        ensures
            r.wf(),
            r@ == (num as int, den as int),
    {
        Rational { num, den }
    }

    /// The rational zero.
    pub fn zero() -> (r: Rational)
        ensures
            r.wf(),
            r.bounded(),
            r.frac_bounded(),
            r@ == (0int, 1int),
    {
        Rational { num: 0, den: 1 }
    }

    /// Whether the two rationals denote the same value.
    pub fn equals(&self, other: &Rational) -> (r: bool)
        requires
            self.wf(),
            other.wf(),
            fits(self.num * other.den),
            fits(other.num * self.den),
        ensures
            r == q_eq(self@, other@),
    {
        self.num * other.den == other.num * self.den
    }
}

/// The magnitude of a product is bounded by the product of the bounds.
pub proof fn lemma_mul_bound(a: int, b: int, ba: int, bb: int)
    requires
        -ba <= a <= ba,
        -bb <= b <= bb,
        0 <= ba,
        0 <= bb,
    ensures
        -(ba * bb) <= a * b <= ba * bb,
{
    assert(-(ba * bb) <= a * b <= ba * bb) by (nonlinear_arith)
        requires
            -ba <= a <= ba,
            -bb <= b <= bb,
            0 <= ba,
            0 <= bb,
    ;
}

/// The product of two positive integers is positive.
pub proof fn lemma_mul_pos(a: int, b: int)
    requires
        0 < a,
        0 < b,
    ensures
        0 < a * b,
{
    vstd::arithmetic::mul::lemma_mul_strictly_positive(a, b);
}

/// The product of two non-negative integers is non-negative.
pub proof fn lemma_mul_nonneg(a: int, b: int)
    requires
        0 <= a,
        0 <= b,
    ensures
        0 <= a * b,
{
    vstd::arithmetic::mul::lemma_mul_nonnegative(a, b);
}

/// The product of a positive and a negative integer is negative.
pub proof fn lemma_mul_pos_neg(a: int, b: int)
    requires
        0 < a,
        b < 0,
    ensures
        a * b < 0,
{
    assert(a * b < 0) by (nonlinear_arith)
        requires
            0 < a,
            b < 0,
    ;
}

} // verus!
