//! Exact rational scalars.
//!
//! The geometric kernel works over exact rational numbers rather than
//! machine reals: a scalar is a fraction `num / den` of 128-bit integers
//! with a positive denominator.  All scalar arithmetic in this crate is
//! exact; no rounding ever happens.  Fractions are not reduced, so each
//! operation states, as a precondition, that the integer products it forms
//! stay representable.

use vstd::prelude::*;

verus! {

/// The mathematical value of a rational scalar: the fraction `n / d`.
pub struct SpecRat {
    pub n: int,
    pub d: int,
}

/// A spec-level rational is well formed when its denominator is positive.
pub open spec fn q_wf(a: SpecRat) -> bool {
    a.d > 0
}

/// The rational zero.
pub open spec fn q_zero() -> SpecRat {
    SpecRat { n: 0, d: 1 }
}

/// The rational one.
pub open spec fn q_one() -> SpecRat {
    SpecRat { n: 1, d: 1 }
}

/// Value equality of two fractions (valid when both denominators are positive).
pub open spec fn q_eq(a: SpecRat, b: SpecRat) -> bool {
    a.n * b.d == b.n * a.d
}

/// `a <= b` as rational values (valid when both denominators are positive).
pub open spec fn q_le(a: SpecRat, b: SpecRat) -> bool {
    a.n * b.d <= b.n * a.d
}

/// `a < b` as rational values (valid when both denominators are positive).
pub open spec fn q_lt(a: SpecRat, b: SpecRat) -> bool {
    a.n * b.d < b.n * a.d
}

/// Exact sum of two fractions.
pub open spec fn q_add(a: SpecRat, b: SpecRat) -> SpecRat {
    SpecRat { n: a.n * b.d + b.n * a.d, d: a.d * b.d }
}

/// Exact difference of two fractions.
pub open spec fn q_sub(a: SpecRat, b: SpecRat) -> SpecRat {
    SpecRat { n: a.n * b.d - b.n * a.d, d: a.d * b.d }
}

/// Exact product of two fractions.
pub open spec fn q_mul(a: SpecRat, b: SpecRat) -> SpecRat {
    SpecRat { n: a.n * b.n, d: a.d * b.d }
}

/// Exact negation of a fraction.
pub open spec fn q_neg(a: SpecRat) -> SpecRat {
    SpecRat { n: -a.n, d: a.d }
}

/// Exact quotient `a / b`; well formed when `b` is a positive rational.
pub open spec fn q_div(a: SpecRat, b: SpecRat) -> SpecRat {
    SpecRat { n: a.n * b.d, d: a.d * b.n }
}

/// The reciprocal `1 / a`; well formed when `a` is a positive rational.
pub open spec fn q_inv(a: SpecRat) -> SpecRat {
    SpecRat { n: a.d, d: a.n }
}

/// The fraction's numerator lies in `[-nb, nb]` and its denominator in `(0, db]`.
pub open spec fn q_bounded(a: SpecRat, nb: int, db: int) -> bool {
    -nb <= a.n <= nb && 0 < a.d <= db
}

/// `x` is representable as an `i128` (symmetric range).
pub open spec fn fits_i128(x: int) -> bool {
    -(i128::MAX as int) <= x <= i128::MAX as int
}

/// Bound on a product from bounds on its factors.
pub proof fn lemma_mul_bound(a: int, b: int, ba: int, bb: int)
    by (nonlinear_arith)
    requires
        -ba <= a <= ba,
        -bb <= b <= bb,
        0 <= ba,
        0 <= bb,
    ensures
        -(ba * bb) <= a * b <= ba * bb,
{
}

/// A product of positive factors is positive, and bounded by the bounds' product.
pub proof fn lemma_pos_mul_bound(a: int, b: int, ba: int, bb: int)
    by (nonlinear_arith)
    requires
        0 < a <= ba,
        0 < b <= bb,
    ensures
        0 < a * b <= ba * bb,
{
}

/// Rational value equality is transitive.
pub proof fn lemma_q_eq_trans(a: SpecRat, b: SpecRat, c: SpecRat)
    by (nonlinear_arith)
    requires
        q_wf(a),
        q_wf(b),
        q_wf(c),
        q_eq(a, b),
        q_eq(b, c),
    ensures
        q_eq(a, c),
{
}

/// An exact rational scalar `num / den`.
///
/// The denominator must be kept positive; fractions are never reduced, so
/// two values that denote the same rational may differ in representation.
/// Representation equality (`==`) is field equality; value equality is
/// `q_eq` on the views.
#[derive(Clone, Copy, PartialEq, Eq, Structural, Debug)]
pub struct Rat {
    pub num: i128,
    pub den: i128,
}

impl View for Rat {
    type V = SpecRat;

    open spec fn view(&self) -> SpecRat {
        SpecRat { n: self.num as int, d: self.den as int }
    }
}

impl Rat {
    /// The representation invariant: a positive denominator.
    pub open spec fn wf(&self) -> bool {
        self.den > 0
    }

    /// Build the rational `num / den`.
    pub fn new(num: i128, den: i128) -> (r: Rat)
        requires
            den > 0,
        ensures
            r.wf(),
            r@ == (SpecRat { n: num as int, d: den as int }),
    {
        Rat { num, den }
    }

    /// Build the rational `num / 1`.
    pub fn from_int(num: i128) -> (r: Rat)
        ensures
            r.wf(),
            r@ == (SpecRat { n: num as int, d: 1 }),
    {
        Rat { num, den: 1 }
    }

    /// Whether this fraction denotes the rational zero.
    pub fn is_zero(&self) -> (r: bool)
        requires
            self.wf(),
        ensures
            r == q_eq(self@, q_zero()),
    {
        self.num == 0
    }

    /// Whether this fraction denotes a non-positive rational.
    pub fn is_non_positive(&self) -> (r: bool)
        requires
            self.wf(),
        ensures
            r == q_le(self@, q_zero()),
    {
        self.num <= 0
    }

    /// Whether the two fractions denote the same rational value.
    pub fn eq_value(&self, other: &Rat) -> (r: bool)
        requires
            self.wf(),
            other.wf(),
            fits_i128(self@.n * other@.d),
            fits_i128(other@.n * self@.d),
        ensures
            r == q_eq(self@, other@),
    {
        self.num * other.den == other.num * self.den
    }

    /// Whether `self <= other` as rational values.
    pub fn le_value(&self, other: &Rat) -> (r: bool)
        requires
            self.wf(),
            other.wf(),
            fits_i128(self@.n * other@.d),
            fits_i128(other@.n * self@.d),
        ensures
            r == q_le(self@, other@),
    {
        self.num * other.den <= other.num * self.den
    }
}

/// Exact sum of two rationals.
pub fn rat_add(a: &Rat, b: &Rat) -> (r: Rat)
    requires
        a.wf(),
        b.wf(),
        fits_i128(a@.n * b@.d),
        fits_i128(b@.n * a@.d),
        fits_i128(a@.n * b@.d + b@.n * a@.d),
        fits_i128(a@.d * b@.d),
    ensures
        r.wf(),
        r@ == q_add(a@, b@),
{
    proof {
        lemma_pos_mul_bound(a@.d, b@.d, i128::MAX as int, i128::MAX as int);
    }
    Rat { num: a.num * b.den + b.num * a.den, den: a.den * b.den }
}

/// Exact difference of two rationals.
pub fn rat_sub(a: &Rat, b: &Rat) -> (r: Rat)
    requires
        a.wf(),
        b.wf(),
        fits_i128(a@.n * b@.d),
        fits_i128(b@.n * a@.d),
        fits_i128(a@.n * b@.d - b@.n * a@.d),
        fits_i128(a@.d * b@.d),
    ensures
        r.wf(),
        r@ == q_sub(a@, b@),
{
    proof {
        lemma_pos_mul_bound(a@.d, b@.d, i128::MAX as int, i128::MAX as int);
    }
    Rat { num: a.num * b.den - b.num * a.den, den: a.den * b.den }
}

/// Exact product of two rationals.
pub fn rat_mul(a: &Rat, b: &Rat) -> (r: Rat)
    requires
        a.wf(),
        b.wf(),
        fits_i128(a@.n * b@.n),
        fits_i128(a@.d * b@.d),
    ensures
        r.wf(),
        r@ == q_mul(a@, b@),
{
    proof {
        lemma_pos_mul_bound(a@.d, b@.d, i128::MAX as int, i128::MAX as int);
    }
    Rat { num: a.num * b.num, den: a.den * b.den }
}

/// Exact negation of a rational.
pub fn rat_neg(a: &Rat) -> (r: Rat)
    requires
        a.wf(),
        fits_i128(-a@.n),
    ensures
        r.wf(),
        r@ == q_neg(a@),
{
    Rat { num: -a.num, den: a.den }
}

/// The reciprocal of a positive rational.
pub fn rat_inv(a: &Rat) -> (r: Rat)
    requires
        a.wf(),
        q_lt(q_zero(), a@),
    ensures
        r.wf(),
        r@ == q_inv(a@),
{
    Rat { num: a.den, den: a.num }
}

/// Exact quotient `a / b` of two rationals; the divisor must be positive.
pub fn rat_div(a: &Rat, b: &Rat) -> (r: Rat)
    requires
        a.wf(),
        b.wf(),
        q_lt(q_zero(), b@),
        fits_i128(a@.n * b@.d),
        fits_i128(a@.d * b@.n),
    ensures
        r.wf(),
        r@ == q_div(a@, b@),
{
    proof {
        lemma_pos_mul_bound(a@.d, b@.n, i128::MAX as int, i128::MAX as int);
    }
    Rat { num: a.num * b.den, den: a.den * b.num }
}

} // verus!
