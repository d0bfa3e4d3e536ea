//! Infinite lines in implicit form.

use vstd::prelude::*;

use crate::distance_to_point::DistanceToPoint;
use crate::operations::perp_unit2d;
use crate::rational::{
    lemma_mul_bound, lemma_pos_mul_bound, q_add, q_bounded, q_eq, q_mul,
    q_neg, q_wf, q_zero, rat_add, rat_mul, rat_neg, Rat, SpecRat,
};
use crate::ray::{ray_from_segment_spec, Ray, SpecRay};
use crate::segment::{seg_len_sq, seg_wf, SpecSegment};
use crate::vector::{
    dot_point, p_add_v, p_in_coord_range, v_bounded, v_dot_p, v_is_unit,
    v_perp, v_scale, v_wf, Point, SpecPoint, SpecVec, Vec2, DIR_DEN_LIMIT,
    DIR_NUM_LIMIT, OFFSET_DEN_LIMIT, OFFSET_NUM_LIMIT,
};

verus! {

/// Numerator magnitude limit that [`Line::distance_to_point`] guarantees
/// of its result.
pub const LINE_DIST_NUM_LIMIT: i128 = 562949953421312;

/// Denominator limit that [`Line::distance_to_point`] guarantees of its
/// result.
pub const LINE_DIST_DEN_LIMIT: i128 = 1099511627776;

/// The mathematical value of a line: a unit normal and a signed offset.
pub struct SpecLine {
    pub normal: SpecVec,
    pub c: SpecRat,
}

/// A spec-level line is well formed when its normal is a unit vector
/// within the direction limits and its offset within the offset limits.
pub open spec fn line_wf(l: SpecLine) -> bool {
    v_wf(l.normal) && v_is_unit(l.normal) && q_wf(l.c)
        && v_bounded(l.normal, DIR_NUM_LIMIT as int, DIR_DEN_LIMIT as int)
        && q_bounded(l.c, OFFSET_NUM_LIMIT as int, OFFSET_DEN_LIMIT as int)
}

/// The signed distance from a line to a point: `normal . p + c`.
///
/// Because the normal has unit length, no division is needed; the sign is
/// positive when `p` lies on the side the normal points toward.
pub open spec fn line_dist(l: SpecLine, p: SpecPoint) -> SpecRat {
    q_add(v_dot_p(l.normal, p), l.c)
}

/// The line a ray converts to: its normal is the ray's direction rotated
/// 90 degrees counterclockwise, and its offset places the ray's origin on
/// the line.
pub open spec fn line_from_ray_spec(r: SpecRay) -> SpecLine {
    SpecLine {
        normal: v_perp(r.direction),
        c: q_neg(v_dot_p(v_perp(r.direction), r.origin)),
    }
}

/// A line in 2-dimensions which extends infinitely in either direction.
///
/// A line is defined by its unit normal and its offset along the normal,
/// giving the implicit equation `normal.x * x + normal.y * y + c = 0`.
#[derive(Clone, Copy, PartialEq, Eq, Structural, Debug)]
pub struct Line {
    /// The normal vector for the line - the vector which is perpendicular
    /// to the line.
    pub normal: Vec2,

    /// The constant offset used in the implicit line equation.
    pub c: Rat,
}

impl View for Line {
    type V = SpecLine;

    open spec fn view(&self) -> SpecLine {
        SpecLine { normal: self.normal@, c: self.c@ }
    }
}

impl Line {
    /// The representation invariant: unit normal, in-range offset.
    pub open spec fn wf(&self) -> bool {
        line_wf(self@)
    }

    /// Create a new line from the given normal vector and offset.
    ///
    /// The normal must be exactly unit length: the distance formula
    /// relies on it.
    pub fn new(normal: Vec2, c: Rat) -> (r: Line)
        requires
            normal.wf(),
            c.wf(),
            v_is_unit(normal@),
            v_bounded(normal@, DIR_NUM_LIMIT as int, DIR_DEN_LIMIT as int),
            q_bounded(c@, OFFSET_NUM_LIMIT as int, OFFSET_DEN_LIMIT as int),
        ensures
            r.wf(),
            r.normal == normal,
            r.c == c,
    {
        Line { normal, c }
    }

    /// Compute the signed distance from the point to the line.  The
    /// output can be used to tell if the given point is 'above' or
    /// 'below' the line based on the normal vector.
    ///
    /// The result is exactly `normal . p + c`; this works because the
    /// normal vector is always of unit length.
    pub fn distance_to_point(&self, point: &Point) -> (r: Rat)
        requires
            self.wf(),
            p_in_coord_range(point@),
        ensures
            r.wf(),
            r@ == line_dist(self@, point@),
            q_bounded(r@, LINE_DIST_NUM_LIMIT as int, LINE_DIST_DEN_LIMIT as int),
    {
        proof {
            lemma_mul_bound(self@.normal.x, point@.x, DIR_NUM_LIMIT as int, 1024);
            lemma_mul_bound(self@.normal.y, point@.y, DIR_NUM_LIMIT as int, 1024);
            lemma_pos_mul_bound(self@.normal.d, point@.d, DIR_DEN_LIMIT as int, 8);
        }
        let dp = dot_point(&self.normal, point);
        proof {
            lemma_mul_bound(dp@.n, self@.c.d, 268435456, OFFSET_DEN_LIMIT as int);
            lemma_mul_bound(self@.c.n, dp@.d, OFFSET_NUM_LIMIT as int, 1048576);
            lemma_pos_mul_bound(dp@.d, self@.c.d, 1048576, OFFSET_DEN_LIMIT as int);
        }
        rat_add(&dp, &self.c)
    }
}

impl DistanceToPoint for Line {
    /// The line must be well formed and the queried point within the
    /// coordinate limits.
    open spec fn dist_sq_req(&self, p: SpecPoint) -> bool {
        self.wf() && p_in_coord_range(p)
    }

    /// The squared signed distance: exactly the square of
    /// `normal . p + c`, which loses the side information by design.
    open spec fn dist_sq_spec(&self, p: SpecPoint) -> SpecRat {
        q_mul(line_dist(self@, p), line_dist(self@, p))
    }

    /// The squared distance from the line to a point.
    ///
    /// This can be useful if other algorithms are using squared distance
    /// for calculations.
    fn distance_to_point_squared(&self, point: &Point) -> (r: Rat) {
        let distance = self.distance_to_point(point);
        proof {
            lemma_mul_bound(distance@.n, distance@.n, LINE_DIST_NUM_LIMIT as int, LINE_DIST_NUM_LIMIT as int);
            lemma_pos_mul_bound(distance@.d, distance@.d, LINE_DIST_DEN_LIMIT as int, LINE_DIST_DEN_LIMIT as int);
        }
        rat_mul(&distance, &distance)
    }
}

impl Line {
    /// Build an infinite line based on this ray's direction and position.
    ///
    /// The resulting line's normal is the ray's direction rotated 90
    /// degrees counterclockwise, and its offset is chosen so that the
    /// ray's origin lies exactly on the line.
    pub fn from_ray(ray: &Ray) -> (r: Line)
        requires
            ray.wf(),
        ensures
            r.wf(),
            r@ == line_from_ray_spec(ray@),
            q_eq(line_dist(r@, ray@.origin), q_zero()),
    {
        let normal = perp_unit2d(&ray.direction);
        proof {
            lemma_mul_bound(normal@.x, ray@.origin.x, DIR_NUM_LIMIT as int, 1024);
            lemma_mul_bound(normal@.y, ray@.origin.y, DIR_NUM_LIMIT as int, 1024);
            lemma_pos_mul_bound(normal@.d, ray@.origin.d, DIR_DEN_LIMIT as int, 8);
        }
        let dp = dot_point(&normal, &ray.origin);
        let c = rat_neg(&dp);
        proof {
            // The offset is the negated dot product, so the two terms of
            // the distance at the origin cancel exactly.
            assert((-(dp@.n)) * dp@.d == -(dp@.n * dp@.d)) by (nonlinear_arith);
            assert(line_dist(SpecLine { normal: normal@, c: c@ }, ray@.origin).n == 0);
        }
        Line { normal, c }
    }
}

/// Core of the containment argument over plain integers: the numerator
/// of the distance from the converted line to any parametric point of the
/// ray cancels to zero.
#[verifier::rlimit(50)]
proof fn lemma_contains_core(
    ox: int,
    oy: int,
    od: int,
    dx: int,
    dy: int,
    dd: int,
    tn: int,
    td: int,
    qx: int,
    qy: int,
    qd: int,
)
    requires
        qx == ox * (dd * td) + (dx * tn) * od,
        qy == oy * (dd * td) + (dy * tn) * od,
        qd == od * (dd * td),
    ensures
        ((-dy) * qx + dx * qy) * (dd * od) + (-((-dy) * ox + dx * oy)) * (dd * qd) == 0,
{
    assert((-dy) * qx == (-dy) * (ox * (dd * td)) + (-dy) * ((dx * tn) * od))
        by (nonlinear_arith)
        requires
            qx == ox * (dd * td) + (dx * tn) * od,
    ;
    assert(dx * qy == dx * (oy * (dd * td)) + dx * ((dy * tn) * od))
        by (nonlinear_arith)
        requires
            qy == oy * (dd * td) + (dy * tn) * od,
    ;
    assert((-dy) * ((dx * tn) * od) + dx * ((dy * tn) * od) == 0) by (nonlinear_arith);
    assert((-dy) * (ox * (dd * td)) + dx * (oy * (dd * td))
        == (dx * oy - dy * ox) * (dd * td)) by (nonlinear_arith);
    assert((-dy) * qx + dx * qy == (dx * oy - dy * ox) * (dd * td));
    assert(((dx * oy - dy * ox) * (dd * td)) * (dd * od)
        == (dx * oy - dy * ox) * ((dd * td) * (dd * od))) by (nonlinear_arith);
    assert((dd * td) * (dd * od) == dd * (od * (dd * td))) by (nonlinear_arith);
    assert(-((-dy) * ox + dx * oy) == -(dx * oy - dy * ox)) by (nonlinear_arith);
    assert((-(dx * oy - dy * ox)) * (dd * qd)
        == -((dx * oy - dy * ox) * (dd * qd))) by (nonlinear_arith);
    assert((dx * oy - dy * ox) * (dd * qd)
        == (dx * oy - dy * ox) * (dd * (od * (dd * td))));
    assert(dd * (od * (dd * td)) == (dd * td) * (dd * od)) by (nonlinear_arith);
}

/// The line built from a ray contains the whole ray: the converted
/// line's signed distance to every parametric point `origin + t *
/// direction` of the ray is exactly zero.
pub proof fn lemma_line_from_ray_contains_ray(r: SpecRay, t: SpecRat)
    requires
        crate::ray::ray_wf(r),
        q_wf(t),
    ensures
        q_eq(
            line_dist(line_from_ray_spec(r), p_add_v(r.origin, v_scale(r.direction, t))),
            q_zero(),
        ),
{
    let q = p_add_v(r.origin, v_scale(r.direction, t));
    lemma_contains_core(
        r.origin.x, r.origin.y, r.origin.d,
        r.direction.x, r.direction.y, r.direction.d,
        t.n, t.d, q.x, q.y, q.d,
    );
    assert(line_dist(line_from_ray_spec(r), q).n == 0);
}

/// Idempotence of the conversion chain: building a line from the ray of a
/// segment is a pure function of the segment and its exact length, so two
/// applications produce a line with the same normal and the same offset —
/// exactly, with no tolerance needed.
pub proof fn lemma_line_from_segment_deterministic(s: SpecSegment, length: SpecRat)
    requires
        seg_wf(s),
        q_wf(length),
        crate::rational::q_lt(q_zero(), length),
        q_eq(q_mul(length, length), seg_len_sq(s)),
    ensures
        line_from_ray_spec(ray_from_segment_spec(s, length)).normal
            == line_from_ray_spec(ray_from_segment_spec(s, length)).normal,
        line_from_ray_spec(ray_from_segment_spec(s, length)).c
            == line_from_ray_spec(ray_from_segment_spec(s, length)).c,
{
}

} // verus!
