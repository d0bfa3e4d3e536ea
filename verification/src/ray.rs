//! Rays: half-lines from an origin along a unit direction.

use vstd::prelude::*;

use crate::distance_to_point::DistanceToPoint;
use crate::rational::{
    lemma_mul_bound, lemma_pos_mul_bound, q_bounded, q_eq, q_inv, q_le,
    q_lt, q_mul, q_neg, q_wf, q_zero, rat_inv, rat_neg, Rat, SpecRat,
};
use crate::segment::{seg_in_coord_range, seg_len_sq, seg_wf, Segment, SpecSegment};
use crate::vector::{
    dot, lemma_coord_products_fit, norm_squared, p_add_v, p_eq,
    p_in_coord_range, p_sub, p_wf, point_plus_vector, scale, sub_points,
    sub_vectors, v_bounded, v_dot, v_is_unit, v_norm_sq, v_scale, v_sub, v_wf,
    Point, SpecPoint, SpecVec, Vec2, COORD_DEN_LIMIT, COORD_NUM_LIMIT,
    DIR_DEN_LIMIT, DIR_NUM_LIMIT,
};

verus! {

/// The mathematical value of a ray: the points `origin + t * direction`
/// for `t` in `[0, infinity)`.
pub struct SpecRay {
    pub origin: SpecPoint,
    pub direction: SpecVec,
}

/// A spec-level ray is well formed when its origin lies within the
/// coordinate limits and its direction is a unit vector within the
/// direction limits.
pub open spec fn ray_wf(r: SpecRay) -> bool {
    p_wf(r.origin) && v_wf(r.direction) && v_is_unit(r.direction)
        && p_in_coord_range(r.origin)
        && v_bounded(r.direction, DIR_NUM_LIMIT as int, DIR_DEN_LIMIT as int)
}

/// The signed squared distance from a ray to a point.
///
/// With `w = p - origin` and the projection `t = w . direction`: when
/// `t <= 0` the point is behind the origin and the result is the negated
/// squared offset `-|w|^2`; otherwise it is the squared perpendicular
/// distance `|w - t * direction|^2` to the ray's infinite extension.
/// The negation marks "behind", so the behind branch is not the square of
/// the signed distance — an asymmetry of the original convention that is
/// preserved faithfully.
pub open spec fn ray_dist_sq(r: SpecRay, p: SpecPoint) -> SpecRat {
    let w = p_sub(p, r.origin);
    let t = v_dot(w, r.direction);
    if q_le(t, q_zero()) {
        q_neg(v_norm_sq(w))
    } else {
        v_norm_sq(v_sub(w, v_scale(r.direction, t)))
    }
}

/// The point where a segment of the given length built on the ray ends.
pub open spec fn ray_segment_end(r: SpecRay, length: SpecRat) -> SpecPoint {
    p_add_v(r.origin, v_scale(r.direction, length))
}

/// The ray a segment converts to: the segment's start as origin, and the
/// direction `(end - start) / length`, where `length` is the segment's
/// exact length.
pub open spec fn ray_from_segment_spec(s: SpecSegment, length: SpecRat) -> SpecRay {
    SpecRay {
        origin: s.start,
        direction: v_scale(p_sub(s.end, s.start), q_inv(length)),
    }
}

/// A Ray is a half-line which begins at an origin point.
///
/// The points on a Ray are defined parametrically as
/// `Ray(t) = origin + t * direction` for `t >= 0`, and the direction is
/// kept exactly unit length.
#[derive(Clone, Copy, PartialEq, Eq, Structural, Debug)]
pub struct Ray {
    /// The Ray's origin in 2d space.
    pub origin: Point,

    /// The direction the Ray points.
    pub direction: Vec2,
}

impl View for Ray {
    type V = SpecRay;

    open spec fn view(&self) -> SpecRay {
        SpecRay { origin: self.origin@, direction: self.direction@ }
    }
}

impl Ray {
    /// The representation invariant: in-range origin, unit direction.
    pub open spec fn wf(&self) -> bool {
        ray_wf(self@)
    }

    /// Create a new Ray with the given origin and direction.
    ///
    /// The direction must be exactly unit length.
    pub fn new(origin: Point, direction: Vec2) -> (r: Ray)
        requires
            origin.wf(),
            direction.wf(),
            v_is_unit(direction@),
            p_in_coord_range(origin@),
            v_bounded(direction@, DIR_NUM_LIMIT as int, DIR_DEN_LIMIT as int),
        ensures
            r.wf(),
            r.origin == origin,
            r.direction == direction,
    {
        Ray { origin, direction }
    }

    /// Create a line segment from this Ray with a given length.
    ///
    /// The length may be any rational value; a negative length points the
    /// segment backward along the direction.
    pub fn as_segment(&self, length: &Rat) -> (r: Segment)
        requires
            self.wf(),
            length.wf(),
            q_bounded(length@, COORD_NUM_LIMIT as int, COORD_DEN_LIMIT as int),
        ensures
            r.wf(),
            r.start == self.origin,
            r.end@ == ray_segment_end(self@, length@),
    {
        proof {
            lemma_mul_bound(self@.direction.x, length@.n, DIR_NUM_LIMIT as int, COORD_NUM_LIMIT as int);
            lemma_mul_bound(self@.direction.y, length@.n, DIR_NUM_LIMIT as int, COORD_NUM_LIMIT as int);
            lemma_pos_mul_bound(self@.direction.d, length@.d, DIR_DEN_LIMIT as int, COORD_DEN_LIMIT as int);
        }
        let offset = scale(&self.direction, length);
        proof {
            lemma_mul_bound(self@.origin.x, offset@.d, 1024, 1048576);
            lemma_mul_bound(offset@.x, self@.origin.d, 134217728, 8);
            lemma_mul_bound(self@.origin.y, offset@.d, 1024, 1048576);
            lemma_mul_bound(offset@.y, self@.origin.d, 134217728, 8);
            lemma_pos_mul_bound(self@.origin.d, offset@.d, 8, 1048576);
        }
        let end = point_plus_vector(&self.origin, &offset);
        Segment { start: self.origin, end }
    }

    /// Create a Ray which starts at the segment's `start` point and points
    /// towards the `end` point.
    ///
    /// Normalizing needs the segment's length, which is irrational in
    /// general; the caller supplies it, and the contract demands that its
    /// square is exactly the segment's squared length.  A zero-length
    /// segment has no direction, so the length must be positive.
    pub fn from_segment(segment: &Segment, length: &Rat) -> (r: Ray)
        requires
            seg_in_coord_range(segment@),
            length.wf(),
            q_lt(q_zero(), length@),
            q_bounded(length@, COORD_NUM_LIMIT as int, COORD_DEN_LIMIT as int),
            q_eq(q_mul(length@, length@), seg_len_sq(segment@)),
        ensures
            r.wf(),
            r.origin == segment.start,
            r@.direction == ray_from_segment_spec(segment@, length@).direction,
    {
        proof {
            lemma_coord_products_fit(segment@.end, segment@.start);
        }
        let v = sub_points(&segment.end, &segment.start);
        let inv_len = rat_inv(length);
        proof {
            lemma_mul_bound(v@.x, inv_len@.n, 16384, COORD_DEN_LIMIT as int);
            lemma_mul_bound(v@.y, inv_len@.n, 16384, COORD_DEN_LIMIT as int);
            lemma_pos_mul_bound(v@.d, inv_len@.d, 64, COORD_NUM_LIMIT as int);
        }
        let direction = scale(&v, &inv_len);
        proof {
            lemma_unit_direction(segment@, length@);
        }
        Ray { origin: segment.start, direction }
    }
}

/// The scaled direction built by [`Ray::from_segment`] is exactly unit:
/// the square of the supplied length equals the segment's squared length,
/// so dividing the displacement by the length normalizes it with no
/// rounding.
/// Squaring is insensitive to the order of a subtraction.
proof fn lemma_sq_opposite(a: int, b: int)
    by (nonlinear_arith)
    ensures
        (a - b) * (a - b) == (b - a) * (b - a),
{
}

/// Multiplication of integers is commutative.
proof fn lemma_mul_comm(a: int, b: int)
    by (nonlinear_arith)
    ensures
        a * b == b * a,
{
}

/// Core of the normalization argument, over plain integers: if the square
/// of the supplied length equals the squared displacement length, then the
/// displacement scaled by the reciprocal length has squared norm one.
proof fn lemma_unit_direction_coord(vx: int, vy: int, vd: int, ln: int, ld: int)
    requires
        (ln * ln) * (vd * vd) == (vx * vx + vy * vy) * (ld * ld),
    ensures
        (vx * ld) * (vx * ld) + (vy * ld) * (vy * ld) == (vd * ln) * (vd * ln),
{
    assert((vx * ld) * (vx * ld) == (vx * vx) * (ld * ld)) by (nonlinear_arith);
    assert((vy * ld) * (vy * ld) == (vy * vy) * (ld * ld)) by (nonlinear_arith);
    assert((vd * ln) * (vd * ln) == (ln * ln) * (vd * vd)) by (nonlinear_arith);
    assert((vx * vx) * (ld * ld) + (vy * vy) * (ld * ld) == (vx * vx + vy * vy) * (ld * ld))
        by (nonlinear_arith);
}

proof fn lemma_unit_direction(s: SpecSegment, length: SpecRat)
    requires
        seg_wf(s),
        q_wf(length),
        q_lt(q_zero(), length),
        q_eq(q_mul(length, length), seg_len_sq(s)),
    ensures
        v_is_unit(v_scale(p_sub(s.end, s.start), q_inv(length))),
{
    let v = p_sub(s.end, s.start);
    let m = p_sub(s.start, s.end);
    // The two orientations of the displacement have the same squared
    // coordinates and the same denominator.
    lemma_sq_opposite(s.end.x * s.start.d, s.start.x * s.end.d);
    lemma_sq_opposite(s.end.y * s.start.d, s.start.y * s.end.d);
    lemma_mul_comm(s.end.d, s.start.d);
    assert(v.x * v.x == m.x * m.x);
    assert(v.y * v.y == m.y * m.y);
    assert(v.d == m.d);
    // The squared-length hypothesis, written out over the components.
    assert((length.n * length.n) * (m.d * m.d) == (m.x * m.x + m.y * m.y) * (length.d * length.d));
    assert((length.n * length.n) * (v.d * v.d) == (v.x * v.x + v.y * v.y) * (length.d * length.d));
    lemma_unit_direction_coord(v.x, v.y, v.d, length.n, length.d);
    let dir = v_scale(v, q_inv(length));
    assert(v_norm_sq(dir).n == (v.x * length.d) * (v.x * length.d) + (v.y * length.d) * (v.y * length.d));
    assert(v_norm_sq(dir).d == (v.d * length.n) * (v.d * length.n));
    assert(v_norm_sq(dir).n * 1 == 1 * v_norm_sq(dir).d);
}

impl DistanceToPoint for Ray {
    /// The ray must be well formed and the queried point within the
    /// coordinate limits.
    open spec fn dist_sq_req(&self, p: SpecPoint) -> bool {
        self.wf() && p_in_coord_range(p)
    }

    /// The signed squared distance with the ray's sign convention: the
    /// negated squared offset behind the origin, the squared perpendicular
    /// distance in front.
    open spec fn dist_sq_spec(&self, p: SpecPoint) -> SpecRat {
        ray_dist_sq(self@, p)
    }

    /// Compute the squared distance to the given point.
    ///
    /// A negative value means that the point is 'behind' the ray's origin
    /// based on the direction vector; a positive value means it is 'in
    /// front', measured perpendicular to the ray.
    fn distance_to_point_squared(&self, point: &Point) -> (r: Rat) {
        proof {
            lemma_coord_products_fit(point@, self@.origin);
        }
        let w = sub_points(point, &self.origin);
        proof {
            lemma_mul_bound(w@.x, self@.direction.x, 16384, DIR_NUM_LIMIT as int);
            lemma_mul_bound(w@.y, self@.direction.y, 16384, DIR_NUM_LIMIT as int);
            lemma_pos_mul_bound(w@.d, self@.direction.d, 64, DIR_DEN_LIMIT as int);
        }
        let projection = dot(&w, &self.direction);
        if projection.is_non_positive() {
            // The projection can only be below 0 when the point is
            // *behind* the origin (relative to the direction vector).
            proof {
                lemma_mul_bound(w@.x, w@.x, 16384, 16384);
                lemma_mul_bound(w@.y, w@.y, 16384, 16384);
                lemma_pos_mul_bound(w@.d, w@.d, 64, 64);
            }
            let n = norm_squared(&w);
            rat_neg(&n)
        } else {
            proof {
                lemma_mul_bound(self@.direction.x, projection@.n, DIR_NUM_LIMIT as int, 4294967296);
                lemma_mul_bound(self@.direction.y, projection@.n, DIR_NUM_LIMIT as int, 4294967296);
                lemma_pos_mul_bound(self@.direction.d, projection@.d, DIR_DEN_LIMIT as int, 8388608);
            }
            let sc = scale(&self.direction, &projection);
            proof {
                lemma_mul_bound(w@.x, sc@.d, 16384, 1099511627776);
                lemma_mul_bound(sc@.x, w@.d, 562949953421312, 64);
                lemma_mul_bound(w@.y, sc@.d, 16384, 1099511627776);
                lemma_mul_bound(sc@.y, w@.d, 562949953421312, 64);
                lemma_pos_mul_bound(w@.d, sc@.d, 64, 1099511627776);
            }
            let diff = sub_vectors(&w, &sc);
            proof {
                lemma_mul_bound(diff@.x, diff@.x, 72057594037927936, 72057594037927936);
                lemma_mul_bound(diff@.y, diff@.y, 72057594037927936, 72057594037927936);
                lemma_pos_mul_bound(diff@.d, diff@.d, 70368744177664, 70368744177664);
            }
            norm_squared(&diff)
        }
    }
}

/// Core of the round-trip argument for one coordinate, over plain
/// integers: scaling the displacement by the reciprocal length and then
/// by the length again lands back on the end coordinate.
proof fn lemma_round_trip_coord(
    sx: int,
    sd: int,
    ex: int,
    ed: int,
    ln: int,
    ld: int,
    vx: int,
    vd: int,
    qx: int,
    qd: int,
)
    requires
        vx == ex * sd - sx * ed,
        vd == ed * sd,
        qx == sx * ((vd * ln) * ld) + ((vx * ld) * ln) * sd,
        qd == sd * ((vd * ln) * ld),
    ensures
        qx * ed == ex * qd,
{
    assert(sx * vd + vx * sd == ex * (sd * sd)) by (nonlinear_arith)
        requires
            vx == ex * sd - sx * ed,
            vd == ed * sd,
    ;
    assert(sx * ((vd * ln) * ld) == (sx * vd) * (ln * ld)) by (nonlinear_arith);
    assert(((vx * ld) * ln) * sd == (vx * sd) * (ln * ld)) by (nonlinear_arith);
    assert((sx * vd + vx * sd) * (ln * ld) == (sx * vd) * (ln * ld) + (vx * sd) * (ln * ld))
        by (nonlinear_arith);
    assert(qx == (sx * vd + vx * sd) * (ln * ld));
    assert(qx == (ex * (sd * sd)) * (ln * ld));
    assert(qd == (sd * vd) * (ln * ld)) by (nonlinear_arith)
        requires
            qd == sd * ((vd * ln) * ld),
    ;
    assert(qx * ed == ex * qd) by (nonlinear_arith)
        requires
            qx == (ex * (sd * sd)) * (ln * ld),
            qd == (sd * vd) * (ln * ld),
            vd == ed * sd,
    ;
}

/// Round trip: a segment converted to a ray and back to a segment of the
/// original exact length reproduces the original endpoints.
pub proof fn lemma_segment_ray_round_trip(s: SpecSegment, length: SpecRat)
    requires
        seg_wf(s),
        q_wf(length),
        q_lt(q_zero(), length),
        q_eq(q_mul(length, length), seg_len_sq(s)),
    ensures
        ray_from_segment_spec(s, length).origin == s.start,
        p_eq(ray_segment_end(ray_from_segment_spec(s, length), length), s.end),
{
    let r = ray_from_segment_spec(s, length);
    let q = ray_segment_end(r, length);
    let v = p_sub(s.end, s.start);
    assert(q.x == s.start.x * ((v.d * length.n) * length.d)
        + ((v.x * length.d) * length.n) * s.start.d);
    assert(q.y == s.start.y * ((v.d * length.n) * length.d)
        + ((v.y * length.d) * length.n) * s.start.d);
    assert(q.d == s.start.d * ((v.d * length.n) * length.d));
    lemma_round_trip_coord(
        s.start.x, s.start.d, s.end.x, s.end.d, length.n, length.d, v.x, v.d, q.x, q.d,
    );
    lemma_round_trip_coord(
        s.start.y, s.start.d, s.end.y, s.end.d, length.n, length.d, v.y, v.d, q.y, q.d,
    );
}

} // verus!
