//! The shared point-distance capability.

use vstd::prelude::*;

use crate::rational::{Rat, SpecRat};
use crate::vector::{
    norm_squared, p_in_coord_range, p_sub, sub_points, v_norm_sq, Point,
    SpecPoint, COORD_DEN_LIMIT, COORD_NUM_LIMIT,
};

verus! {

/// Types which implement this trait can compute their squared distance
/// from an arbitrary point.
///
/// Each implementor fixes, through [`DistanceToPoint::dist_sq_spec`], the
/// exact rational value the query returns; the sign conventions genuinely
/// differ by type (lines and rays return signed information, segments and
/// points do not), so the trait forces no common formula.  The plain
/// (non-squared) distance of the corresponding floating-point interface
/// needs a square root and therefore stays outside this exact kernel.
pub trait DistanceToPoint {
    /// When the query may be asked: well-formedness of the receiver and
    /// the coordinate limits under which its arithmetic stays exact.
    spec fn dist_sq_req(&self, p: SpecPoint) -> bool;

    /// The exact rational value of the squared distance to `p`.
    spec fn dist_sq_spec(&self, p: SpecPoint) -> SpecRat;

    /// Compute the squared L2 Norm distance from this object to an
    /// arbitrary point.
    fn distance_to_point_squared(&self, point: &Point) -> (r: Rat)
        requires
            self.dist_sq_req(point@),
        ensures
            r.wf(),
            r@ == self.dist_sq_spec(point@),
    ;
}

impl DistanceToPoint for Point {
    /// Both points must lie within the coordinate limits.
    open spec fn dist_sq_req(&self, p: SpecPoint) -> bool {
        p_in_coord_range(self@) && p_in_coord_range(p)
    }

    /// The squared distance between two points is `|a - b|^2`.
    open spec fn dist_sq_spec(&self, p: SpecPoint) -> SpecRat {
        v_norm_sq(p_sub(p, self@))
    }

    /// The squared distance between two points is just `|a - b| * |a - b|`.
    ///
    /// Some implementations use negative values to indicate direction.
    /// Therefore, it's important to compare absolute values when checking
    /// distances between multiple different implementations.
    fn distance_to_point_squared(&self, point: &Point) -> (r: Rat) {
        proof {
            crate::rational::lemma_mul_bound(point@.x, self@.d, COORD_NUM_LIMIT as int, COORD_DEN_LIMIT as int);
            crate::rational::lemma_mul_bound(self@.x, point@.d, COORD_NUM_LIMIT as int, COORD_DEN_LIMIT as int);
            crate::rational::lemma_mul_bound(point@.y, self@.d, COORD_NUM_LIMIT as int, COORD_DEN_LIMIT as int);
            crate::rational::lemma_mul_bound(self@.y, point@.d, COORD_NUM_LIMIT as int, COORD_DEN_LIMIT as int);
            crate::rational::lemma_pos_mul_bound(point@.d, self@.d, COORD_DEN_LIMIT as int, COORD_DEN_LIMIT as int);
        }
        let u = sub_points(point, self);
        proof {
            crate::rational::lemma_mul_bound(u@.x, u@.x, 16384, 16384);
            crate::rational::lemma_mul_bound(u@.y, u@.y, 16384, 16384);
            crate::rational::lemma_pos_mul_bound(u@.d, u@.d, 64, 64);
        }
        norm_squared(&u)
    }
}

} // verus!
