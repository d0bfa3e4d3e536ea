//! Exact points and vectors in the plane.
//!
//! A point or vector stores two integer coordinates over one shared
//! positive denominator, so a value denotes `(x/d, y/d)` exactly.  The
//! spec-level counterparts ([`SpecPoint`], [`SpecVec`]) carry the same
//! shape over unbounded integers, and every executable operation returns
//! precisely the fraction its spec formula describes.
//!
//! Inputs to the geometric queries are kept within fixed coordinate
//! limits; the limits exist only so that every intermediate product of
//! the unreduced fraction arithmetic provably fits in an `i128`.

use vstd::prelude::*;

use crate::rational::{
    fits_i128, lemma_pos_mul_bound, q_eq, q_one, Rat, SpecRat,
};

verus! {

/// Numerator magnitude limit for point coordinates handed to the queries.
pub const COORD_NUM_LIMIT: i128 = 1024;

/// Denominator limit for point coordinates handed to the queries.
pub const COORD_DEN_LIMIT: i128 = 8;

/// Numerator magnitude limit for direction and normal vectors.
pub const DIR_NUM_LIMIT: i128 = 131072;

/// Denominator limit for direction and normal vectors.
pub const DIR_DEN_LIMIT: i128 = 131072;

/// Numerator magnitude limit for a line's offset scalar.
pub const OFFSET_NUM_LIMIT: i128 = 268435456;

/// Denominator limit for a line's offset scalar.
pub const OFFSET_DEN_LIMIT: i128 = 1048576;

/// The mathematical value of a point: `(x/d, y/d)`.
pub struct SpecPoint {
    pub x: int,
    pub y: int,
    pub d: int,
}

/// The mathematical value of a vector: `(x/d, y/d)`.
pub struct SpecVec {
    pub x: int,
    pub y: int,
    pub d: int,
}

/// A spec-level point is well formed when its denominator is positive.
pub open spec fn p_wf(p: SpecPoint) -> bool {
    p.d > 0
}

/// A spec-level vector is well formed when its denominator is positive.
pub open spec fn v_wf(v: SpecVec) -> bool {
    v.d > 0
}

/// Value equality of two points (valid when both denominators are positive).
pub open spec fn p_eq(a: SpecPoint, b: SpecPoint) -> bool {
    a.x * b.d == b.x * a.d && a.y * b.d == b.y * a.d
}

/// The displacement vector `a - b` between two points.
pub open spec fn p_sub(a: SpecPoint, b: SpecPoint) -> SpecVec {
    SpecVec { x: a.x * b.d - b.x * a.d, y: a.y * b.d - b.y * a.d, d: a.d * b.d }
}

/// The difference `u - v` of two vectors.
pub open spec fn v_sub(u: SpecVec, v: SpecVec) -> SpecVec {
    SpecVec { x: u.x * v.d - v.x * u.d, y: u.y * v.d - v.y * u.d, d: u.d * v.d }
}

/// The vector rotated 90 degrees counterclockwise: `(-y, x)`.
pub open spec fn v_perp(v: SpecVec) -> SpecVec {
    SpecVec { x: -v.y, y: v.x, d: v.d }
}

/// The vector scaled by a rational factor.
pub open spec fn v_scale(v: SpecVec, s: SpecRat) -> SpecVec {
    SpecVec { x: v.x * s.n, y: v.y * s.n, d: v.d * s.d }
}

/// The dot product of two vectors.
pub open spec fn v_dot(u: SpecVec, v: SpecVec) -> SpecRat {
    SpecRat { n: u.x * v.x + u.y * v.y, d: u.d * v.d }
}

/// The dot product of a vector with a point's position vector.
pub open spec fn v_dot_p(n: SpecVec, p: SpecPoint) -> SpecRat {
    SpecRat { n: n.x * p.x + n.y * p.y, d: n.d * p.d }
}

/// The squared Euclidean norm of a vector.
pub open spec fn v_norm_sq(v: SpecVec) -> SpecRat {
    v_dot(v, v)
}

/// The point reached from `p` by the displacement `v`.
pub open spec fn p_add_v(p: SpecPoint, v: SpecVec) -> SpecPoint {
    SpecPoint { x: p.x * v.d + v.x * p.d, y: p.y * v.d + v.y * p.d, d: p.d * v.d }
}

/// The vector has exactly unit length.
pub open spec fn v_is_unit(v: SpecVec) -> bool {
    q_eq(v_norm_sq(v), q_one())
}

/// Coordinate numerators lie in `[-nb, nb]`, the denominator in `(0, db]`.
pub open spec fn p_bounded(p: SpecPoint, nb: int, db: int) -> bool {
    -nb <= p.x <= nb && -nb <= p.y <= nb && 0 < p.d <= db
}

/// Coordinate numerators lie in `[-nb, nb]`, the denominator in `(0, db]`.
pub open spec fn v_bounded(v: SpecVec, nb: int, db: int) -> bool {
    -nb <= v.x <= nb && -nb <= v.y <= nb && 0 < v.d <= db
}

/// The point lies within the coordinate limits the queries accept.
pub open spec fn p_in_coord_range(p: SpecPoint) -> bool {
    p_bounded(p, COORD_NUM_LIMIT as int, COORD_DEN_LIMIT as int)
}

/// The products formed by subtracting two in-range points fit in an `i128`.
pub proof fn lemma_coord_products_fit(a: SpecPoint, b: SpecPoint)
    requires
        p_in_coord_range(a),
        p_in_coord_range(b),
    ensures
        fits_i128(a.x * b.d),
        fits_i128(b.x * a.d),
        fits_i128(a.x * b.d - b.x * a.d),
        fits_i128(a.y * b.d),
        fits_i128(b.y * a.d),
        fits_i128(a.y * b.d - b.y * a.d),
        fits_i128(a.d * b.d),
        -16384 <= a.x * b.d - b.x * a.d <= 16384,
        -16384 <= a.y * b.d - b.y * a.d <= 16384,
        0 < a.d * b.d <= 64,
{
    crate::rational::lemma_mul_bound(a.x, b.d, COORD_NUM_LIMIT as int, COORD_DEN_LIMIT as int);
    crate::rational::lemma_mul_bound(b.x, a.d, COORD_NUM_LIMIT as int, COORD_DEN_LIMIT as int);
    crate::rational::lemma_mul_bound(a.y, b.d, COORD_NUM_LIMIT as int, COORD_DEN_LIMIT as int);
    crate::rational::lemma_mul_bound(b.y, a.d, COORD_NUM_LIMIT as int, COORD_DEN_LIMIT as int);
    lemma_pos_mul_bound(a.d, b.d, COORD_DEN_LIMIT as int, COORD_DEN_LIMIT as int);
}

/// A point in the plane with exact rational coordinates `(xn/den, yn/den)`.
#[derive(Clone, Copy, PartialEq, Eq, Structural, Debug)]
pub struct Point {
    pub xn: i128,
    pub yn: i128,
    pub den: i128,
}

/// A vector in the plane with exact rational coordinates `(xn/den, yn/den)`.
#[derive(Clone, Copy, PartialEq, Eq, Structural, Debug)]
pub struct Vec2 {
    pub xn: i128,
    pub yn: i128,
    pub den: i128,
}

impl View for Point {
    type V = SpecPoint;

    open spec fn view(&self) -> SpecPoint {
        SpecPoint { x: self.xn as int, y: self.yn as int, d: self.den as int }
    }
}

impl View for Vec2 {
    type V = SpecVec;

    open spec fn view(&self) -> SpecVec {
        SpecVec { x: self.xn as int, y: self.yn as int, d: self.den as int }
    }
}

impl Point {
    /// The representation invariant: a positive denominator.
    pub open spec fn wf(&self) -> bool {
        self.den > 0
    }

    /// Build the point `(xn/den, yn/den)`.
    pub fn new(xn: i128, yn: i128, den: i128) -> (r: Point)
        requires
            den > 0,
        ensures
            r.wf(),
            r@ == (SpecPoint { x: xn as int, y: yn as int, d: den as int }),
    {
        Point { xn, yn, den }
    }

    /// Build the point with integer coordinates `(x, y)`.
    pub fn from_ints(x: i128, y: i128) -> (r: Point)
        ensures
            r.wf(),
            r@ == (SpecPoint { x: x as int, y: y as int, d: 1 }),
    {
        Point { xn: x, yn: y, den: 1 }
    }

    /// Whether the two points denote the same location.
    pub fn eq_point(&self, other: &Point) -> (r: bool)
        requires
            self.wf(),
            other.wf(),
            fits_i128(self@.x * other@.d),
            fits_i128(other@.x * self@.d),
            fits_i128(self@.y * other@.d),
            fits_i128(other@.y * self@.d),
        ensures
            r == p_eq(self@, other@),
    {
        self.xn * other.den == other.xn * self.den
            && self.yn * other.den == other.yn * self.den
    }
}

impl Vec2 {
    /// The representation invariant: a positive denominator.
    pub open spec fn wf(&self) -> bool {
        self.den > 0
    }

    /// Build the vector `(xn/den, yn/den)`.
    pub fn new(xn: i128, yn: i128, den: i128) -> (r: Vec2)
        requires
            den > 0,
        ensures
            r.wf(),
            r@ == (SpecVec { x: xn as int, y: yn as int, d: den as int }),
    {
        Vec2 { xn, yn, den }
    }
}

/// The displacement vector `a - b` between two points.
pub fn sub_points(a: &Point, b: &Point) -> (r: Vec2)
    requires
        a.wf(),
        b.wf(),
        fits_i128(a@.x * b@.d),
        fits_i128(b@.x * a@.d),
        fits_i128(a@.x * b@.d - b@.x * a@.d),
        fits_i128(a@.y * b@.d),
        fits_i128(b@.y * a@.d),
        fits_i128(a@.y * b@.d - b@.y * a@.d),
        fits_i128(a@.d * b@.d),
    ensures
        r.wf(),
        r@ == p_sub(a@, b@),
{
    proof {
        lemma_pos_mul_bound(a@.d, b@.d, i128::MAX as int, i128::MAX as int);
    }
    Vec2 {
        xn: a.xn * b.den - b.xn * a.den,
        yn: a.yn * b.den - b.yn * a.den,
        den: a.den * b.den,
    }
}

/// The difference `u - v` of two vectors.
pub fn sub_vectors(u: &Vec2, v: &Vec2) -> (r: Vec2)
    requires
        u.wf(),
        v.wf(),
        fits_i128(u@.x * v@.d),
        fits_i128(v@.x * u@.d),
        fits_i128(u@.x * v@.d - v@.x * u@.d),
        fits_i128(u@.y * v@.d),
        fits_i128(v@.y * u@.d),
        fits_i128(u@.y * v@.d - v@.y * u@.d),
        fits_i128(u@.d * v@.d),
    ensures
        r.wf(),
        r@ == v_sub(u@, v@),
{
    proof {
        lemma_pos_mul_bound(u@.d, v@.d, i128::MAX as int, i128::MAX as int);
    }
    Vec2 {
        xn: u.xn * v.den - v.xn * u.den,
        yn: u.yn * v.den - v.yn * u.den,
        den: u.den * v.den,
    }
}

/// The dot product of two vectors.
pub fn dot(u: &Vec2, v: &Vec2) -> (r: Rat)
    requires
        u.wf(),
        v.wf(),
        fits_i128(u@.x * v@.x),
        fits_i128(u@.y * v@.y),
        fits_i128(u@.x * v@.x + u@.y * v@.y),
        fits_i128(u@.d * v@.d),
    ensures
        r.wf(),
        r@ == v_dot(u@, v@),
{
    proof {
        lemma_pos_mul_bound(u@.d, v@.d, i128::MAX as int, i128::MAX as int);
    }
    Rat { num: u.xn * v.xn + u.yn * v.yn, den: u.den * v.den }
}

/// The dot product of a vector with a point's position vector.
pub fn dot_point(n: &Vec2, p: &Point) -> (r: Rat)
    requires
        n.wf(),
        p.wf(),
        fits_i128(n@.x * p@.x),
        fits_i128(n@.y * p@.y),
        fits_i128(n@.x * p@.x + n@.y * p@.y),
        fits_i128(n@.d * p@.d),
    ensures
        r.wf(),
        r@ == v_dot_p(n@, p@),
{
    proof {
        lemma_pos_mul_bound(n@.d, p@.d, i128::MAX as int, i128::MAX as int);
    }
    Rat { num: n.xn * p.xn + n.yn * p.yn, den: n.den * p.den }
}

/// The squared Euclidean norm of a vector.
pub fn norm_squared(v: &Vec2) -> (r: Rat)
    requires
        v.wf(),
        fits_i128(v@.x * v@.x),
        fits_i128(v@.y * v@.y),
        fits_i128(v@.x * v@.x + v@.y * v@.y),
        fits_i128(v@.d * v@.d),
    ensures
        r.wf(),
        r@ == v_norm_sq(v@),
{
    dot(v, v)
}

/// The vector scaled by a rational factor.
pub fn scale(v: &Vec2, s: &Rat) -> (r: Vec2)
    requires
        v.wf(),
        s.wf(),
        fits_i128(v@.x * s@.n),
        fits_i128(v@.y * s@.n),
        fits_i128(v@.d * s@.d),
    ensures
        r.wf(),
        r@ == v_scale(v@, s@),
{
    proof {
        lemma_pos_mul_bound(v@.d, s@.d, i128::MAX as int, i128::MAX as int);
    }
    Vec2 { xn: v.xn * s.num, yn: v.yn * s.num, den: v.den * s.den }
}

/// The point reached from `p` by the displacement `v`.
pub fn point_plus_vector(p: &Point, v: &Vec2) -> (r: Point)
    requires
        p.wf(),
        v.wf(),
        fits_i128(p@.x * v@.d),
        fits_i128(v@.x * p@.d),
        fits_i128(p@.x * v@.d + v@.x * p@.d),
        fits_i128(p@.y * v@.d),
        fits_i128(v@.y * p@.d),
        fits_i128(p@.y * v@.d + v@.y * p@.d),
        fits_i128(p@.d * v@.d),
    ensures
        r.wf(),
        r@ == p_add_v(p@, v@),
{
    proof {
        lemma_pos_mul_bound(p@.d, v@.d, i128::MAX as int, i128::MAX as int);
    }
    Point {
        xn: p.xn * v.den + v.xn * p.den,
        yn: p.yn * v.den + v.yn * p.den,
        den: p.den * v.den,
    }
}

} // verus!
