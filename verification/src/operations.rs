//! Misc. operations on points and vectors in 2d.

use vstd::prelude::*;

use crate::rational::{fits_i128, lemma_q_eq_trans, q_eq, q_one, q_wf};
use crate::vector::{v_is_unit, v_norm_sq, v_perp, v_wf, SpecVec, Vec2};

verus! {

/// Rotating a vector 90 degrees counterclockwise preserves its squared norm.
pub proof fn lemma_perp_preserves_norm_sq(v: SpecVec)
    by (nonlinear_arith)
    requires
        v_wf(v),
    ensures
        q_wf(v_norm_sq(v)),
        q_wf(v_norm_sq(v_perp(v))),
        q_eq(v_norm_sq(v_perp(v)), v_norm_sq(v)),
{
}

/// Compute a perpendicular vector by rotating the given vector 90 degrees
/// counterclockwise.
///
/// The rotation is exact: `(x, y)` becomes `(-y, x)`, and the squared norm
/// is preserved without any renormalization.
pub fn perp_vec2d(vector: &Vec2) -> (r: Vec2)
    requires
        vector.wf(),
        fits_i128(-vector@.y),
    ensures
        r.wf(),
        r@ == v_perp(vector@),
        q_eq(v_norm_sq(r@), v_norm_sq(vector@)),
{
    proof {
        lemma_perp_preserves_norm_sq(vector@);
    }
    Vec2 { xn: -vector.yn, yn: vector.xn, den: vector.den }
}

/// Compute a perpendicular vector by rotating the given vector 90 degrees
/// counterclockwise.
///
/// This function is specialized for unit vectors: because the rotation is
/// exact, the result is again a unit vector with no renormalization.
pub fn perp_unit2d(vector: &Vec2) -> (r: Vec2)
    requires
        vector.wf(),
        v_is_unit(vector@),
        fits_i128(-vector@.y),
    ensures
        r.wf(),
        r@ == v_perp(vector@),
        v_is_unit(r@),
{
    let r = perp_vec2d(vector);
    proof {
        lemma_perp_preserves_norm_sq(vector@);
        lemma_q_eq_trans(v_norm_sq(r@), v_norm_sq(vector@), q_one());
    }
    r
}

} // verus!
