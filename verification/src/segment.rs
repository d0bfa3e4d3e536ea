//! Bounded line segments.

use vstd::prelude::*;

use crate::distance_to_point::DistanceToPoint;
use crate::rational::{
    lemma_mul_bound, lemma_pos_mul_bound, q_div, q_le, q_one, q_wf, q_zero,
    rat_div, Rat, SpecRat,
};
use crate::vector::{
    dot, lemma_coord_products_fit, norm_squared, p_add_v, p_bounded, p_eq,
    p_in_coord_range, p_sub, p_wf, point_plus_vector, scale, sub_points,
    v_dot, v_norm_sq, v_scale, Point, SpecPoint,
};

verus! {

/// Numerator magnitude limit that [`Segment::closest_point`] guarantees of
/// its result's coordinates.
pub const CLOSEST_NUM_LIMIT: i128 = 576460752303423488;

/// Denominator limit that [`Segment::closest_point`] guarantees of its
/// result.
pub const CLOSEST_DEN_LIMIT: i128 = 1125899906842624;

/// The mathematical value of a segment: its two endpoints.
pub struct SpecSegment {
    pub start: SpecPoint,
    pub end: SpecPoint,
}

/// Both endpoints are well formed.
pub open spec fn seg_wf(s: SpecSegment) -> bool {
    p_wf(s.start) && p_wf(s.end)
}

/// Both endpoints lie within the coordinate limits the queries accept.
pub open spec fn seg_in_coord_range(s: SpecSegment) -> bool {
    p_in_coord_range(s.start) && p_in_coord_range(s.end)
}

/// The squared distance between the endpoints.
pub open spec fn seg_len_sq(s: SpecSegment) -> SpecRat {
    v_norm_sq(p_sub(s.start, s.end))
}

/// The point `start + t * (end - start)` of the segment's parametric form.
pub open spec fn seg_point_at(s: SpecSegment, t: SpecRat) -> SpecPoint {
    p_add_v(s.start, v_scale(p_sub(s.end, s.start), t))
}

/// The projection scalar `c1 = (p - start) . (end - start)`.
pub open spec fn seg_proj_c1(s: SpecSegment, p: SpecPoint) -> SpecRat {
    v_dot(p_sub(p, s.start), p_sub(s.end, s.start))
}

/// The squared direction length `c2 = |end - start|^2`.
pub open spec fn seg_proj_c2(s: SpecSegment) -> SpecRat {
    v_norm_sq(p_sub(s.end, s.start))
}

/// The projection parameter clamped to `[0, 1]`: `0` when the point
/// projects before `start`, `1` when at or beyond `end`, else `c1 / c2`.
pub open spec fn seg_closest_param(s: SpecSegment, p: SpecPoint) -> SpecRat {
    if q_le(seg_proj_c1(s, p), q_zero()) {
        q_zero()
    } else if q_le(seg_proj_c2(s), seg_proj_c1(s, p)) {
        q_one()
    } else {
        q_div(seg_proj_c1(s, p), seg_proj_c2(s))
    }
}

/// The closest point of the segment to `p`: `start` when the point
/// projects before the segment, `end` when it projects beyond it, and the
/// interior projection otherwise.
pub open spec fn seg_closest_point(s: SpecSegment, p: SpecPoint) -> SpecPoint {
    if q_le(seg_proj_c1(s, p), q_zero()) {
        s.start
    } else if q_le(seg_proj_c2(s), seg_proj_c1(s, p)) {
        s.end
    } else {
        p_add_v(s.start, v_scale(p_sub(s.end, s.start), q_div(seg_proj_c1(s, p), seg_proj_c2(s))))
    }
}

/// A line-segment defined by a start point and an end point.
///
/// A zero-length segment (`start == end`) is a valid degenerate value
/// representing a single point.
#[derive(Clone, Copy, PartialEq, Eq, Structural, Debug)]
pub struct Segment {
    pub start: Point,
    pub end: Point,
}

impl View for Segment {
    type V = SpecSegment;

    open spec fn view(&self) -> SpecSegment {
        SpecSegment { start: self.start@, end: self.end@ }
    }
}

impl Segment {
    /// The representation invariant: both endpoints are well formed.
    pub open spec fn wf(&self) -> bool {
        seg_wf(self@)
    }

    /// Create a new line segment defined by a start and end point.
    pub fn new(start: Point, end: Point) -> (r: Segment)
        requires
            start.wf(),
            end.wf(),
        ensures
            r.wf(),
            r.start == start,
            r.end == end,
    {
        Segment { start, end }
    }

    /// Get the closest point on this segment to an arbitrarily provided
    /// point.
    ///
    /// The result is exact: the point `start` when `p` projects at or
    /// before the start of the segment, `end` when it projects at or
    /// beyond its end, and the interior projection `start + (c1/c2) *
    /// (end - start)` otherwise, with ties resolved exactly at the
    /// boundaries.
    pub fn closest_point(&self, point: &Point) -> (r: Point)
        requires
            seg_in_coord_range(self@),
            p_in_coord_range(point@),
        ensures
            r.wf(),
            r@ == seg_closest_point(self@, point@),
            p_bounded(r@, CLOSEST_NUM_LIMIT as int, CLOSEST_DEN_LIMIT as int),
    {
        proof {
            lemma_coord_products_fit(self@.end, self@.start);
            lemma_coord_products_fit(point@, self@.start);
        }
        let direction = sub_points(&self.end, &self.start);
        let w = sub_points(point, &self.start);
        proof {
            lemma_mul_bound(w@.x, direction@.x, 16384, 16384);
            lemma_mul_bound(w@.y, direction@.y, 16384, 16384);
            lemma_pos_mul_bound(w@.d, direction@.d, 64, 64);
        }
        let c1 = dot(&w, &direction);
        if c1.is_non_positive() {
            // The point projects at or before the start point.
            return self.start;
        }
        proof {
            lemma_mul_bound(direction@.x, direction@.x, 16384, 16384);
            lemma_mul_bound(direction@.y, direction@.y, 16384, 16384);
            lemma_pos_mul_bound(direction@.d, direction@.d, 64, 64);
        }
        let c2 = norm_squared(&direction);
        proof {
            lemma_mul_bound(c2@.n, c1@.d, 536870912, 4096);
            lemma_mul_bound(c1@.n, c2@.d, 536870912, 4096);
        }
        if c2.le_value(&c1) {
            // The point projects at or beyond the end point.
            return self.end;
        }
        proof {
            assert(c2@.n > 0) by (nonlinear_arith)
                requires
                    c1@.n >= 1,
                    c1@.d > 0,
                    c2@.d > 0,
                    c2@.n * c1@.d > c1@.n * c2@.d,
            ;
            lemma_mul_bound(c1@.d, c2@.n, 4096, 536870912);
        }
        let b = rat_div(&c1, &c2);
        proof {
            lemma_mul_bound(direction@.x, b@.n, 16384, 2199023255552);
            lemma_mul_bound(direction@.y, b@.n, 16384, 2199023255552);
            lemma_pos_mul_bound(direction@.d, b@.d, 64, 2199023255552);
        }
        let offset = scale(&direction, &b);
        proof {
            lemma_mul_bound(self@.start.x, offset@.d, 1024, 140737488355328);
            lemma_mul_bound(offset@.x, self@.start.d, 36028797018963968, 8);
            lemma_mul_bound(self@.start.y, offset@.d, 1024, 140737488355328);
            lemma_mul_bound(offset@.y, self@.start.d, 36028797018963968, 8);
            lemma_pos_mul_bound(self@.start.d, offset@.d, 8, 140737488355328);
        }
        point_plus_vector(&self.start, &offset)
    }

    /// The squared distance between the start and end points.
    ///
    /// Note: this is exact, while a length needs a square root and is
    /// therefore not part of this kernel.
    pub fn length_squared(&self) -> (r: Rat)
        requires
            seg_in_coord_range(self@),
        ensures
            r.wf(),
            r@ == seg_len_sq(self@),
    {
        proof {
            lemma_coord_products_fit(self@.start, self@.end);
        }
        let d = sub_points(&self.start, &self.end);
        proof {
            lemma_mul_bound(d@.x, d@.x, 16384, 16384);
            lemma_mul_bound(d@.y, d@.y, 16384, 16384);
            lemma_pos_mul_bound(d@.d, d@.d, 64, 64);
        }
        norm_squared(&d)
    }
}

impl DistanceToPoint for Segment {
    /// The segment and the queried point must lie within the coordinate
    /// limits.
    open spec fn dist_sq_req(&self, p: SpecPoint) -> bool {
        seg_in_coord_range(self@) && p_in_coord_range(p)
    }

    /// The squared distance from a point to the segment is the squared
    /// distance to the closest point of the segment; it is never negative,
    /// unlike the signed conventions of lines and rays.
    open spec fn dist_sq_spec(&self, p: SpecPoint) -> SpecRat {
        v_norm_sq(p_sub(p, seg_closest_point(self@, p)))
    }

    /// Compute the squared distance between the line segment and a point.
    fn distance_to_point_squared(&self, point: &Point) -> (r: Rat) {
        let c = self.closest_point(point);
        proof {
            lemma_mul_bound(point@.x, c@.d, 1024, CLOSEST_DEN_LIMIT as int);
            lemma_mul_bound(c@.x, point@.d, CLOSEST_NUM_LIMIT as int, 8);
            lemma_mul_bound(point@.y, c@.d, 1024, CLOSEST_DEN_LIMIT as int);
            lemma_mul_bound(c@.y, point@.d, CLOSEST_NUM_LIMIT as int, 8);
            lemma_pos_mul_bound(point@.d, c@.d, 8, CLOSEST_DEN_LIMIT as int);
        }
        let u = sub_points(point, &c);
        proof {
            lemma_mul_bound(u@.x, u@.x, 5764607523034234880, 5764607523034234880);
            lemma_mul_bound(u@.y, u@.y, 5764607523034234880, 5764607523034234880);
            lemma_pos_mul_bound(u@.d, u@.d, 9007199254740992, 9007199254740992);
        }
        norm_squared(&u)
    }
}

/// The displacement from start to the queried point.
pub open spec fn seg_u(s: SpecSegment, p: SpecPoint) -> crate::vector::SpecVec {
    p_sub(p, s.start)
}

/// The displacement from start to end.
pub open spec fn seg_v(s: SpecSegment) -> crate::vector::SpecVec {
    p_sub(s.end, s.start)
}

/// The numerator of the squared distance from `p` to the parametric point
/// at `tn / td`, as a quadratic form in `tn` and `td` whose coefficients
/// are the cross-multiplied projection quantities.
pub open spec fn opt_h(s: SpecSegment, p: SpecPoint, tn: int, td: int) -> int {
    let u = seg_u(s, p);
    let v = seg_v(s);
    td * td * ((v.d * v.d) * (u.x * u.x + u.y * u.y))
        - 2 * (td * tn) * ((v.d * u.d) * (u.x * v.x + u.y * v.y))
        + tn * tn * ((u.d * u.d) * (v.x * v.x + v.y * v.y))
}

/// The parameter-independent factor of that squared distance's
/// denominator.
pub open spec fn opt_k(s: SpecSegment, p: SpecPoint) -> int {
    let u = seg_u(s, p);
    let v = seg_v(s);
    (u.d * v.d) * (u.d * v.d)
}

/// The product of two positive integers is positive.
proof fn lemma_mul_pos(a: int, b: int)
    by (nonlinear_arith)
    requires
        a > 0,
        b > 0,
    ensures
        a * b > 0,
{
}

/// A square is never negative.
proof fn lemma_sq_nonneg(x: int)
    by (nonlinear_arith)
    ensures
        0 <= x * x,
{
}

/// A squared weight times a sum of squares is never negative.
proof fn lemma_weighted_sumsq_nonneg(a: int, x: int, y: int)
    by (nonlinear_arith)
    ensures
        0 <= (a * a) * (x * x + y * y),
{
}

/// One coordinate of the displacement from `p` to the parametric point:
/// the start-point terms cancel, and its square is a quadratic form in
/// the parameter.
#[verifier::rlimit(50)]
proof fn lemma_opt_coord(
    px: int,
    pd: int,
    sx: int,
    sd: int,
    vx: int,
    vd: int,
    tn: int,
    td: int,
    ux: int,
    ud: int,
    wx: int,
)
    requires
        ux == px * sd - sx * pd,
        ud == pd * sd,
        wx == px * (sd * (vd * td)) - (sx * (vd * td) + (vx * tn) * sd) * pd,
    ensures
        wx * wx == (td * td) * ((vd * vd) * (ux * ux))
            - 2 * ((td * tn) * ((vd * ud) * (ux * vx)))
            + (tn * tn) * ((ud * ud) * (vx * vx)),
{
    assert(px * (sd * (vd * td)) == (vd * td) * (px * sd)) by (nonlinear_arith);
    assert((sx * (vd * td) + (vx * tn) * sd) * pd
        == (sx * (vd * td)) * pd + ((vx * tn) * sd) * pd) by (nonlinear_arith);
    assert((sx * (vd * td)) * pd == (vd * td) * (sx * pd)) by (nonlinear_arith);
    assert(((vx * tn) * sd) * pd == vx * (tn * (pd * sd))) by (nonlinear_arith);
    assert((vd * td) * (px * sd) - (vd * td) * (sx * pd)
        == (vd * td) * (px * sd - sx * pd)) by (nonlinear_arith);
    assert(wx == (vd * td) * ux - vx * (tn * ud));
    let a1 = vd * td;
    let b1 = tn * ud;
    assert(wx * wx == (a1 * ux) * (a1 * ux) - 2 * ((a1 * ux) * (vx * b1))
        + (vx * b1) * (vx * b1)) by (nonlinear_arith)
        requires
            wx == a1 * ux - vx * b1,
    ;
    assert((a1 * ux) * (a1 * ux) == (a1 * a1) * (ux * ux)) by (nonlinear_arith);
    assert((a1 * ux) * (vx * b1) == (a1 * b1) * (ux * vx)) by (nonlinear_arith);
    assert((vx * b1) * (vx * b1) == (b1 * b1) * (vx * vx)) by (nonlinear_arith);
    assert(wx * wx == (a1 * a1) * (ux * ux) - 2 * ((a1 * b1) * (ux * vx))
        + (b1 * b1) * (vx * vx));
    assert((a1 * a1) * (ux * ux) == (td * td) * ((vd * vd) * (ux * ux)))
        by (nonlinear_arith)
        requires
            a1 == vd * td,
    ;
    assert((a1 * b1) * (ux * vx) == (td * tn) * ((vd * ud) * (ux * vx)))
        by (nonlinear_arith)
        requires
            a1 == vd * td,
            b1 == tn * ud,
    ;
    assert((b1 * b1) * (vx * vx) == (tn * tn) * ((ud * ud) * (vx * vx)))
        by (nonlinear_arith)
        requires
            b1 == tn * ud,
    ;
}

/// The two per-coordinate quadratic forms add up to the quadratic form
/// with summed coefficients.
#[verifier::rlimit(50)]
proof fn lemma_opt_combine(
    nx: int,
    ny: int,
    tn: int,
    td: int,
    vd: int,
    ud: int,
    ux: int,
    uy: int,
    vx: int,
    vy: int,
)
    requires
        nx == (td * td) * ((vd * vd) * (ux * ux))
            - 2 * ((td * tn) * ((vd * ud) * (ux * vx)))
            + (tn * tn) * ((ud * ud) * (vx * vx)),
        ny == (td * td) * ((vd * vd) * (uy * uy))
            - 2 * ((td * tn) * ((vd * ud) * (uy * vy)))
            + (tn * tn) * ((ud * ud) * (vy * vy)),
    ensures
        nx + ny == td * td * ((vd * vd) * (ux * ux + uy * uy))
            - 2 * (td * tn) * ((vd * ud) * (ux * vx + uy * vy))
            + tn * tn * ((ud * ud) * (vx * vx + vy * vy)),
{
    assert((td * td) * ((vd * vd) * (ux * ux)) + (td * td) * ((vd * vd) * (uy * uy))
        == td * td * ((vd * vd) * (ux * ux + uy * uy))) by (nonlinear_arith);
    assert((td * tn) * ((vd * ud) * (ux * vx)) + (td * tn) * ((vd * ud) * (uy * vy))
        == (td * tn) * ((vd * ud) * (ux * vx + uy * vy))) by (nonlinear_arith);
    assert((tn * tn) * ((ud * ud) * (vx * vx)) + (tn * tn) * ((ud * ud) * (vy * vy))
        == tn * tn * ((ud * ud) * (vx * vx + vy * vy))) by (nonlinear_arith);
    lemma_two_mul(td * tn, (vd * ud) * (ux * vx + uy * vy));
}

/// The denominator of the squared distance to the parametric point is the
/// parameter-free factor times the square of the parameter denominator.
proof fn lemma_opt_den(wd: int, pd: int, sd: int, vd: int, td: int, ud: int, k: int)
    requires
        wd == pd * (sd * (vd * td)),
        ud == pd * sd,
        k == (ud * vd) * (ud * vd),
    ensures
        wd * wd == k * (td * td),
{
    assert(wd == (ud * vd) * td) by (nonlinear_arith)
        requires
            wd == pd * (sd * (vd * td)),
            ud == pd * sd,
    ;
    assert(((ud * vd) * td) * ((ud * vd) * td) == ((ud * vd) * (ud * vd)) * (td * td))
        by (nonlinear_arith);
}

/// The squared distance from `p` to the parametric point at `t`, put in
/// normal form: its numerator is the quadratic form [`opt_h`] and its
/// denominator the fixed factor [`opt_k`] times `t.d * t.d`.
proof fn lemma_param_dist_form(s: SpecSegment, p: SpecPoint, t: SpecRat)
    requires
        seg_wf(s),
        p_wf(p),
        q_wf(t),
    ensures
        v_norm_sq(p_sub(p, seg_point_at(s, t))).n == opt_h(s, p, t.n, t.d),
        v_norm_sq(p_sub(p, seg_point_at(s, t))).d == opt_k(s, p) * (t.d * t.d),
{
    let u = seg_u(s, p);
    let v = seg_v(s);
    let q = seg_point_at(s, t);
    let w = p_sub(p, q);
    lemma_opt_coord(
        p.x, p.d, s.start.x, s.start.d, v.x, v.d, t.n, t.d, u.x, u.d, w.x,
    );
    lemma_opt_coord(
        p.y, p.d, s.start.y, s.start.d, v.y, v.d, t.n, t.d, u.y, u.d, w.y,
    );
    lemma_opt_combine(
        w.x * w.x, w.y * w.y, t.n, t.d, v.d, u.d, u.x, u.y, v.x, v.y,
    );
    lemma_opt_den(w.d, p.d, s.start.d, v.d, t.d, u.d, opt_k(s, p));
}

/// Lagrange's identity bound: the square of a dot product never exceeds
/// the product of the squared norms.
#[verifier::rlimit(50)]
proof fn lemma_lagrange(ux: int, uy: int, vx: int, vy: int)
    ensures
        (ux * vx + uy * vy) * (ux * vx + uy * vy)
            <= (ux * ux + uy * uy) * (vx * vx + vy * vy),
{
    assert((ux * ux + uy * uy) * (vx * vx + vy * vy)
        == (ux * ux) * (vx * vx + vy * vy) + (uy * uy) * (vx * vx + vy * vy))
        by (nonlinear_arith);
    assert((ux * ux) * (vx * vx + vy * vy) == (ux * ux) * (vx * vx) + (ux * ux) * (vy * vy))
        by (nonlinear_arith);
    assert((uy * uy) * (vx * vx + vy * vy) == (uy * uy) * (vx * vx) + (uy * uy) * (vy * vy))
        by (nonlinear_arith);
    assert((ux * ux) * (vx * vx) == (ux * vx) * (ux * vx)) by (nonlinear_arith);
    assert((ux * ux) * (vy * vy) == (ux * vy) * (ux * vy)) by (nonlinear_arith);
    assert((uy * uy) * (vx * vx) == (uy * vx) * (uy * vx)) by (nonlinear_arith);
    assert((uy * uy) * (vy * vy) == (uy * vy) * (uy * vy)) by (nonlinear_arith);
    assert((ux * ux + uy * uy) * (vx * vx + vy * vy)
        == (ux * vx) * (ux * vx) + (ux * vy) * (ux * vy) + (uy * vx) * (uy * vx)
            + (uy * vy) * (uy * vy));
    assert((ux * vx + uy * vy) * (ux * vx + uy * vy)
        == (ux * vx) * (ux * vx) + 2 * ((ux * vx) * (uy * vy)) + (uy * vy) * (uy * vy))
        by (nonlinear_arith);
    assert((ux * vy - uy * vx) * (ux * vy - uy * vx)
        == (ux * vy) * (ux * vy) - 2 * ((ux * vy) * (uy * vx)) + (uy * vx) * (uy * vx))
        by (nonlinear_arith);
    assert((ux * vx) * (uy * vy) == (ux * vy) * (uy * vx)) by (nonlinear_arith);
    assert(0 <= (ux * vy - uy * vx) * (ux * vy - uy * vx)) by (nonlinear_arith);
}

/// The Lagrange bound survives scaling by the squared denominators.
#[verifier::rlimit(50)]
proof fn lemma_cauchy_scaled(
    vd: int,
    ud: int,
    capu: int,
    capc1: int,
    capc2: int,
    up: int,
    c1p: int,
    c2p: int,
)
    requires
        capc1 * capc1 <= capu * capc2,
        up == (vd * vd) * capu,
        c1p == (vd * ud) * capc1,
        c2p == (ud * ud) * capc2,
    ensures
        c1p * c1p <= up * c2p,
{
    assert(c1p * c1p == ((vd * vd) * (ud * ud)) * (capc1 * capc1)) by (nonlinear_arith)
        requires
            c1p == (vd * ud) * capc1,
    ;
    assert(up * c2p == ((vd * vd) * (ud * ud)) * (capu * capc2)) by (nonlinear_arith)
        requires
            up == (vd * vd) * capu,
            c2p == (ud * ud) * capc2,
    ;
    assert(0 <= (vd * vd) * (ud * ud)) by (nonlinear_arith);
    assert(((vd * vd) * (ud * ud)) * (capc1 * capc1)
        <= ((vd * vd) * (ud * ud)) * (capu * capc2)) by (nonlinear_arith)
        requires
            capc1 * capc1 <= capu * capc2,
            0 <= (vd * vd) * (ud * ud),
    ;
}

/// A non-positive projection stays non-positive after scaling by the
/// positive denominators.
proof fn lemma_coeff_nonpos(vd: int, ud: int, capc1: int, c1p: int)
    by (nonlinear_arith)
    requires
        capc1 <= 0,
        vd > 0,
        ud > 0,
        c1p == (vd * ud) * capc1,
    ensures
        c1p <= 0,
{
}

/// When the projection reaches past the end (`c2 <= c1` as rationals),
/// the scaled coefficients order the same way.
#[verifier::rlimit(50)]
proof fn lemma_coeff_at_one(vd: int, ud: int, capc1: int, capc2: int, c1p: int, c2p: int)
    requires
        capc2 * (ud * vd) <= capc1 * (vd * vd),
        ud > 0,
        vd > 0,
        c1p == (vd * ud) * capc1,
        c2p == (ud * ud) * capc2,
    ensures
        c2p <= c1p,
{
    assert(capc2 * (ud * vd) == vd * (capc2 * ud)) by (nonlinear_arith);
    assert(capc1 * (vd * vd) == vd * (capc1 * vd)) by (nonlinear_arith);
    assert(capc2 * ud <= capc1 * vd) by (nonlinear_arith)
        requires
            vd * (capc2 * ud) <= vd * (capc1 * vd),
            vd > 0,
    ;
    assert(c2p == ud * (capc2 * ud)) by (nonlinear_arith)
        requires
            c2p == (ud * ud) * capc2,
    ;
    assert(c1p == ud * (capc1 * vd)) by (nonlinear_arith)
        requires
            c1p == (vd * ud) * capc1,
    ;
    assert(ud * (capc2 * ud) <= ud * (capc1 * vd)) by (nonlinear_arith)
        requires
            capc2 * ud <= capc1 * vd,
            ud > 0,
    ;
}

/// In the interior branch the quadratic coefficient is strictly positive.
#[verifier::rlimit(50)]
proof fn lemma_coeff_interior(vd: int, ud: int, capc1: int, capc2: int, c2p: int)
    requires
        capc2 * (ud * vd) > capc1 * (vd * vd),
        capc1 >= 1,
        ud > 0,
        vd > 0,
        c2p == (ud * ud) * capc2,
    ensures
        0 < c2p,
{
    assert(0 < vd * vd) by (nonlinear_arith)
        requires
            vd > 0,
    ;
    assert(capc1 * (vd * vd) >= vd * vd) by (nonlinear_arith)
        requires
            capc1 >= 1,
            0 < vd * vd,
    ;
    assert(0 < capc2 * (ud * vd));
    assert(0 < capc2) by (nonlinear_arith)
        requires
            0 < capc2 * (ud * vd),
            ud > 0,
            vd > 0,
    ;
    assert(0 < (ud * ud) * capc2) by (nonlinear_arith)
        requires
            0 < capc2,
            ud > 0,
    ;
}

/// The clamped interior parameter is the exact stationary point of the
/// scaled quadratic.
#[verifier::rlimit(50)]
proof fn lemma_stationary(
    vd: int,
    ud: int,
    capc1: int,
    capc2: int,
    tsn: int,
    tsd: int,
    c1p: int,
    c2p: int,
)
    requires
        tsn == capc1 * (vd * vd),
        tsd == (ud * vd) * capc2,
        c1p == (vd * ud) * capc1,
        c2p == (ud * ud) * capc2,
    ensures
        tsn * c2p - tsd * c1p == 0,
{
    assert((capc1 * (vd * vd)) * ((ud * ud) * capc2)
        == (((ud * vd) * capc2) * ((vd * ud) * capc1))) by (nonlinear_arith);
}

/// An inequality survives multiplication by a shared non-negative factor.
proof fn lemma_mul_ineq_by_nonneg(hs: int, ht: int, a: int, b: int, k: int)
    by (nonlinear_arith)
    requires
        hs * a <= ht * b,
        0 <= k,
    ensures
        hs * (k * a) <= ht * (k * b),
{
}

/// Doubling commutes with regrouping a product.
proof fn lemma_two_mul(a: int, b: int)
    by (nonlinear_arith)
    ensures
        2 * a * b == 2 * (a * b),
{
}

/// A quadratic `up * td^2 - 2 c1p * td * tn + c2p * tn^2` attains its
/// minimum over `tn / td` at the stationary point `tsn / tsd`.
#[verifier::rlimit(50)]
proof fn lemma_quadratic_min(
    up: int,
    c1p: int,
    c2p: int,
    tsn: int,
    tsd: int,
    tn: int,
    td: int,
)
    requires
        0 < c2p,
        c1p * c1p <= up * c2p,
        tsn * c2p - tsd * c1p == 0,
    ensures
        ((tsd * tsd) * up - 2 * ((tsd * tsn) * c1p) + (tsn * tsn) * c2p) * (td * td)
            <= ((td * td) * up - 2 * ((td * tn) * c1p) + (tn * tn) * c2p) * (tsd * tsd),
{
    let hs = (tsd * tsd) * up - 2 * ((tsd * tsn) * c1p) + (tsn * tsn) * c2p;
    let ht = (td * td) * up - 2 * ((td * tn) * c1p) + (tn * tn) * c2p;
    let d0 = up * c2p - c1p * c1p;
    assert(ht * c2p == ((td * td) * up) * c2p - (2 * ((td * tn) * c1p)) * c2p
        + ((tn * tn) * c2p) * c2p) by (nonlinear_arith)
        requires
            ht == (td * td) * up - 2 * ((td * tn) * c1p) + (tn * tn) * c2p,
    ;
    assert(((td * td) * up) * c2p == (td * td) * (up * c2p)) by (nonlinear_arith);
    assert((2 * ((td * tn) * c1p)) * c2p == 2 * (((td * tn) * c1p) * c2p))
        by (nonlinear_arith);
    assert(((td * tn) * c1p) * c2p == (td * tn) * (c1p * c2p)) by (nonlinear_arith);
    assert(((tn * tn) * c2p) * c2p == (tn * tn) * (c2p * c2p)) by (nonlinear_arith);
    assert(ht * c2p == (td * td) * (up * c2p) - 2 * ((td * tn) * (c1p * c2p))
        + (tn * tn) * (c2p * c2p));
    assert((tn * c2p - td * c1p) * (tn * c2p - td * c1p)
        == (tn * c2p) * (tn * c2p) - 2 * ((tn * c2p) * (td * c1p)) + (td * c1p) * (td * c1p))
        by (nonlinear_arith);
    assert((tn * c2p) * (tn * c2p) == (tn * tn) * (c2p * c2p)) by (nonlinear_arith);
    assert((tn * c2p) * (td * c1p) == (td * tn) * (c1p * c2p)) by (nonlinear_arith);
    assert((td * c1p) * (td * c1p) == (td * td) * (c1p * c1p)) by (nonlinear_arith);
    assert((td * td) * d0 == (td * td) * (up * c2p) - (td * td) * (c1p * c1p))
        by (nonlinear_arith)
        requires
            d0 == up * c2p - c1p * c1p,
    ;
    assert(ht * c2p == (td * td) * d0 + (tn * c2p - td * c1p) * (tn * c2p - td * c1p));
    assert(hs * c2p == ((tsd * tsd) * up) * c2p - (2 * ((tsd * tsn) * c1p)) * c2p
        + ((tsn * tsn) * c2p) * c2p) by (nonlinear_arith)
        requires
            hs == (tsd * tsd) * up - 2 * ((tsd * tsn) * c1p) + (tsn * tsn) * c2p,
    ;
    assert(((tsd * tsd) * up) * c2p == (tsd * tsd) * (up * c2p)) by (nonlinear_arith);
    assert((2 * ((tsd * tsn) * c1p)) * c2p == 2 * (((tsd * tsn) * c1p) * c2p))
        by (nonlinear_arith);
    assert(((tsd * tsn) * c1p) * c2p == (tsd * c1p) * (tsn * c2p)) by (nonlinear_arith);
    assert(((tsn * tsn) * c2p) * c2p == (tsn * c2p) * (tsn * c2p)) by (nonlinear_arith);
    assert(tsn * c2p == tsd * c1p);
    assert((tsd * tsd) * d0 == (tsd * tsd) * (up * c2p) - (tsd * c1p) * (tsd * c1p))
        by (nonlinear_arith)
        requires
            d0 == up * c2p - c1p * c1p,
    ;
    assert(hs * c2p == (tsd * tsd) * d0);
    assert(0 <= (tn * c2p - td * c1p) * (tn * c2p - td * c1p)) by (nonlinear_arith);
    assert(0 <= d0);
    assert(0 <= td * td) by (nonlinear_arith);
    assert(0 <= tsd * tsd) by (nonlinear_arith);
    assert((hs * (td * td)) * c2p <= (ht * (tsd * tsd)) * c2p) by (nonlinear_arith)
        requires
            hs * c2p == (tsd * tsd) * d0,
            ht * c2p == (td * td) * d0 + (tn * c2p - td * c1p) * (tn * c2p - td * c1p),
            0 <= d0,
            0 <= td * td,
            0 <= tsd * tsd,
            0 <= (tn * c2p - td * c1p) * (tn * c2p - td * c1p),
    ;
    assert(hs * (td * td) <= ht * (tsd * tsd)) by (nonlinear_arith)
        requires
            (hs * (td * td)) * c2p <= (ht * (tsd * tsd)) * c2p,
            0 < c2p,
    ;
}

/// The same quadratic is minimized at `0` when the linear coefficient is
/// non-positive, over parameters `tn / td >= 0`.
#[verifier::rlimit(50)]
proof fn lemma_quadratic_at_zero(
    up: int,
    c1p: int,
    c2p: int,
    tsn: int,
    tsd: int,
    tn: int,
    td: int,
)
    by (nonlinear_arith)
    requires
        0 <= c2p,
        c1p <= 0,
        0 <= tn,
        0 < td,
        tsn == 0,
        tsd == 1,
    ensures
        ((tsd * tsd) * up - 2 * ((tsd * tsn) * c1p) + (tsn * tsn) * c2p) * (td * td)
            <= ((td * td) * up - 2 * ((td * tn) * c1p) + (tn * tn) * c2p) * (tsd * tsd),
{
}

/// The same quadratic is minimized at `1` when the stationary point lies
/// at or beyond `1`, over parameters `tn / td <= 1`.
#[verifier::rlimit(50)]
proof fn lemma_quadratic_at_one(
    up: int,
    c1p: int,
    c2p: int,
    tsn: int,
    tsd: int,
    tn: int,
    td: int,
)
    requires
        0 <= c2p,
        c2p <= c1p,
        tn <= td,
        0 < td,
        tsn == 1,
        tsd == 1,
    ensures
        ((tsd * tsd) * up - 2 * ((tsd * tsn) * c1p) + (tsn * tsn) * c2p) * (td * td)
            <= ((td * td) * up - 2 * ((td * tn) * c1p) + (tn * tn) * c2p) * (tsd * tsd),
{
    let ht = (td * td) * up - 2 * ((td * tn) * c1p) + (tn * tn) * c2p;
    let hs = up - 2 * c1p + c2p;
    assert(hs * (td * td) == (td * td) * up - 2 * ((td * td) * c1p) + (td * td) * c2p)
        by (nonlinear_arith)
        requires
            hs == up - 2 * c1p + c2p,
    ;
    assert((td - tn) * (2 * c1p * td - c2p * (td + tn))
        == td * (2 * c1p * td - c2p * (td + tn)) - tn * (2 * c1p * td - c2p * (td + tn)))
        by (nonlinear_arith);
    assert(td * (2 * c1p * td - c2p * (td + tn))
        == 2 * ((td * td) * c1p) - (td * td) * c2p - (td * tn) * c2p) by (nonlinear_arith);
    assert(tn * (2 * c1p * td - c2p * (td + tn))
        == 2 * ((td * tn) * c1p) - (td * tn) * c2p - (tn * tn) * c2p) by (nonlinear_arith);
    assert(ht - hs * (td * td) == (td - tn) * (2 * c1p * td - c2p * (td + tn)));
    assert(0 <= (td - tn) * (2 * c1p * td - c2p * (td + tn))) by (nonlinear_arith)
        requires
            0 <= c2p,
            c2p <= c1p,
            tn <= td,
            0 < td,
    ;
    assert(hs * (td * td) <= ht);
    assert(((tsd * tsd) * up - 2 * ((tsd * tsn) * c1p) + (tsn * tsn) * c2p) * (td * td)
        <= ht * (tsd * tsd)) by (nonlinear_arith)
        requires
            hs * (td * td) <= ht,
            hs == up - 2 * c1p + c2p,
            tsn == 1,
            tsd == 1,
            ht == (td * td) * up - 2 * ((td * tn) * c1p) + (tn * tn) * c2p,
    ;
}

/// Optimality of the closest point: among all points of the segment —
/// the parametric points at `t` in `[0, 1]` — the one at the clamped
/// projection parameter has the smallest squared distance to `p`.
pub proof fn lemma_closest_point_optimal(s: SpecSegment, p: SpecPoint, t: SpecRat)
    requires
        seg_wf(s),
        p_wf(p),
        q_wf(t),
        q_le(q_zero(), t),
        q_le(t, q_one()),
    ensures
        q_le(
            v_norm_sq(p_sub(p, seg_point_at(s, seg_closest_param(s, p)))),
            v_norm_sq(p_sub(p, seg_point_at(s, t))),
        ),
{
    let u = seg_u(s, p);
    let v = seg_v(s);
    let c1 = seg_proj_c1(s, p);
    let c2 = seg_proj_c2(s);
    let ts = seg_closest_param(s, p);
    lemma_closest_point_on_segment(s, p);
    lemma_param_dist_form(s, p, t);
    lemma_param_dist_form(s, p, ts);
    let capu = u.x * u.x + u.y * u.y;
    let capc1 = u.x * v.x + u.y * v.y;
    let capc2 = v.x * v.x + v.y * v.y;
    let up = (v.d * v.d) * capu;
    let c1p = (v.d * u.d) * capc1;
    let c2p = (u.d * u.d) * capc2;
    let k = opt_k(s, p);
    let hs = opt_h(s, p, ts.n, ts.d);
    let ht = opt_h(s, p, t.n, t.d);
    lemma_mul_pos(p.d, s.start.d);
    lemma_mul_pos(s.end.d, s.start.d);
    assert(u.d > 0 && v.d > 0);
    lemma_sq_nonneg(u.d * v.d);
    assert(0 <= k);
    lemma_weighted_sumsq_nonneg(u.d, v.x, v.y);
    assert(0 <= c2p);
    lemma_lagrange(u.x, u.y, v.x, v.y);
    lemma_cauchy_scaled(v.d, u.d, capu, capc1, capc2, up, c1p, c2p);
    lemma_two_mul(ts.d * ts.n, (v.d * u.d) * (u.x * v.x + u.y * v.y));
    lemma_two_mul(t.d * t.n, (v.d * u.d) * (u.x * v.x + u.y * v.y));
    assert(hs == (ts.d * ts.d) * up - 2 * ((ts.d * ts.n) * c1p) + (ts.n * ts.n) * c2p);
    assert(ht == (t.d * t.d) * up - 2 * ((t.d * t.n) * c1p) + (t.n * t.n) * c2p);
    if q_le(c1, q_zero()) {
        // The parameter clamps to zero; the quadratic's linear
        // coefficient is non-positive, so zero minimizes it on `[0, 1]`.
        assert(capc1 <= 0);
        lemma_coeff_nonpos(v.d, u.d, capc1, c1p);
        assert(ts.n == 0 && ts.d == 1);
        lemma_quadratic_at_zero(up, c1p, c2p, ts.n, ts.d, t.n, t.d);
        assert(hs * (t.d * t.d) <= ht * (ts.d * ts.d));
        lemma_mul_ineq_by_nonneg(hs, ht, t.d * t.d, ts.d * ts.d, k);
        assert(hs * (k * (t.d * t.d)) <= ht * (k * (ts.d * ts.d)));
    } else if q_le(c2, c1) {
        // The parameter clamps to one; the stationary point lies at or
        // beyond one, so one minimizes the quadratic on `[0, 1]`.
        assert(capc2 * (u.d * v.d) <= capc1 * (v.d * v.d));
        lemma_coeff_at_one(v.d, u.d, capc1, capc2, c1p, c2p);
        assert(ts.n == 1 && ts.d == 1);
        lemma_quadratic_at_one(up, c1p, c2p, ts.n, ts.d, t.n, t.d);
        assert(hs * (t.d * t.d) <= ht * (ts.d * ts.d));
        lemma_mul_ineq_by_nonneg(hs, ht, t.d * t.d, ts.d * ts.d, k);
        assert(hs * (k * (t.d * t.d)) <= ht * (k * (ts.d * ts.d)));
    } else {
        // Interior: the parameter is the exact stationary point of the
        // quadratic, hence the global minimum.
        assert(capc1 >= 1);
        assert(capc2 * (u.d * v.d) > capc1 * (v.d * v.d));
        lemma_coeff_interior(v.d, u.d, capc1, capc2, c2p);
        assert(ts.n == capc1 * (v.d * v.d));
        assert(ts.d == (u.d * v.d) * capc2);
        lemma_stationary(v.d, u.d, capc1, capc2, ts.n, ts.d, c1p, c2p);
        lemma_quadratic_min(up, c1p, c2p, ts.n, ts.d, t.n, t.d);
        assert(hs * (t.d * t.d) <= ht * (ts.d * ts.d));
        lemma_mul_ineq_by_nonneg(hs, ht, t.d * t.d, ts.d * ts.d, k);
        assert(hs * (k * (t.d * t.d)) <= ht * (k * (ts.d * ts.d)));
    }
}

/// The closest point lies on the segment: it is the segment's parametric
/// point at the clamped projection parameter, which lies in `[0, 1]`.
pub proof fn lemma_closest_point_on_segment(s: SpecSegment, p: SpecPoint)
    requires
        seg_wf(s),
        p_wf(p),
    ensures
        q_wf(seg_closest_param(s, p)),
        q_le(q_zero(), seg_closest_param(s, p)),
        q_le(seg_closest_param(s, p), q_one()),
        p_eq(seg_closest_point(s, p), seg_point_at(s, seg_closest_param(s, p))),
{
    let c1 = seg_proj_c1(s, p);
    let c2 = seg_proj_c2(s);
    assert(c1.d > 0 && c2.d > 0) by (nonlinear_arith)
        requires
            s.start.d > 0,
            s.end.d > 0,
            p.d > 0,
            c1 == seg_proj_c1(s, p),
            c2 == seg_proj_c2(s),
    ;
    if q_le(c1, q_zero()) {
        // The parameter is zero and the closest point is `start`; adding a
        // zero-scaled direction leaves the start point in place.
        assert(p_eq(s.start, seg_point_at(s, q_zero()))) by (nonlinear_arith)
            requires
                s.start.d > 0,
                s.end.d > 0,
        ;
    } else if q_le(c2, c1) {
        // The parameter is one and the closest point is `end`; start plus
        // the full direction reaches the end point exactly.
        let q = seg_point_at(s, q_one());
        assert(q.d == s.start.d * ((s.end.d * s.start.d) * 1));
        assert(q.x == s.start.x * ((s.end.d * s.start.d) * 1)
            + ((s.end.x * s.start.d - s.start.x * s.end.d) * 1) * s.start.d);
        assert(q.y == s.start.y * ((s.end.d * s.start.d) * 1)
            + ((s.end.y * s.start.d - s.start.y * s.end.d) * 1) * s.start.d);
        assert(s.end.x * q.d == q.x * s.end.d) by (nonlinear_arith)
            requires
                q.d == s.start.d * ((s.end.d * s.start.d) * 1),
                q.x == s.start.x * ((s.end.d * s.start.d) * 1)
                    + ((s.end.x * s.start.d - s.start.x * s.end.d) * 1) * s.start.d,
        ;
        assert(s.end.y * q.d == q.y * s.end.d) by (nonlinear_arith)
            requires
                q.d == s.start.d * ((s.end.d * s.start.d) * 1),
                q.y == s.start.y * ((s.end.d * s.start.d) * 1)
                    + ((s.end.y * s.start.d - s.start.y * s.end.d) * 1) * s.start.d,
        ;
    } else {
        // Interior case: `0 < c1 < c2`, so the quotient is well formed and
        // lies strictly between zero and one.
        assert(c2.n > 0) by (nonlinear_arith)
            requires
                c1.n >= 1,
                c1.d > 0,
                c2.d > 0,
                c2.n * c1.d > c1.n * c2.d,
        ;
        assert(q_wf(q_div(c1, c2))) by (nonlinear_arith)
            requires
                c1.d > 0,
                c2.n > 0,
        ;
        assert(q_le(q_zero(), q_div(c1, c2))) by (nonlinear_arith)
            requires
                c1.n >= 1,
                c2.d > 0,
        ;
        assert(q_le(q_div(c1, c2), q_one())) by (nonlinear_arith)
            requires
                c2.n * c1.d > c1.n * c2.d,
        ;
    }
}

} // verus!
