//! Functions and types for calculating the intersections between lines.

use vstd::prelude::*;

use crate::operations::perp_vec2d;
use crate::rational::lemma_mul_bound;
use crate::segment::{seg_in_coord_range, Segment, SpecSegment};
use crate::vector::{dot, lemma_coord_products_fit, p_eq, p_sub, sub_points};

verus! {

/// A segment collapses to a single point when its endpoints coincide.
pub open spec fn seg_degenerate(s: SpecSegment) -> bool {
    p_eq(s.start, s.end)
}

/// This type represents the intersection between two line segments.
#[derive(Clone, Copy, PartialEq, Eq, Structural, Debug)]
pub enum SegmentIntersection {
    /// The objects have no intersection.
    NoIntersection,

    /// The objects intersect at a point.
    Point(crate::vector::Point),

    /// The segments overlap in a segment,
    Overlap(Segment),
}

/// A sum of two squares is zero exactly when both terms are zero.
proof fn lemma_sum_sq_zero(a: int, b: int)
    by (nonlinear_arith)
    ensures
        (a * a + b * b == 0) <==> (a == 0 && b == 0),
{
}

/// Compute the intersection between two line segments.
///
/// The classification is exact: when both segments are degenerate points
/// it is `Point` at the shared location if the two points coincide and
/// `NoIntersection` otherwise.  In every other case the result is
/// `NoIntersection` — for two
/// parallel proper segments no overlap test is implemented, and the
/// general-position intersection of non-parallel segments is likewise not
/// implemented; both are known limitations of this classification, which
/// never claims an intersection that does not exist.
pub fn intersect_segments(a: &Segment, b: &Segment) -> (r: SegmentIntersection)
    requires
        seg_in_coord_range(a@),
        seg_in_coord_range(b@),
    ensures
        (seg_degenerate(a@) && seg_degenerate(b@) && p_eq(a@.start, b@.start))
            ==> r == SegmentIntersection::Point(a.start),
        !(seg_degenerate(a@) && seg_degenerate(b@) && p_eq(a@.start, b@.start))
            ==> r == SegmentIntersection::NoIntersection,
{
    proof {
        lemma_coord_products_fit(a@.end, a@.start);
        lemma_coord_products_fit(b@.end, b@.start);
    }
    let dir_a = sub_points(&a.end, &a.start);
    let dir_b = sub_points(&b.end, &b.start);
    proof {
        lemma_mul_bound(dir_a@.x, -dir_b@.y, 16384, 16384);
        lemma_mul_bound(dir_a@.y, dir_b@.x, 16384, 16384);
        crate::rational::lemma_pos_mul_bound(dir_a@.d, dir_b@.d, 64, 64);
    }
    let perp_b = perp_vec2d(&dir_b);
    let cross = dot(&dir_a, &perp_b);

    // check for degenerate cases: parallel lines, segments which have
    // zero length
    if cross.is_zero() {
        // First, check if the segments are degenerate
        let sqr_len_a = a.length_squared();
        let sqr_len_b = b.length_squared();

        proof {
            lemma_sum_sq_zero(p_sub(a@.start, a@.end).x, p_sub(a@.start, a@.end).y);
            lemma_sum_sq_zero(p_sub(b@.start, b@.end).x, p_sub(b@.start, b@.end).y);
        }
        if sqr_len_a.is_zero() && sqr_len_b.is_zero() {
            // both segments are just points
            proof {
                lemma_coord_products_fit(a@.start, b@.start);
            }
            if a.start.eq_point(&b.start) {
                return SegmentIntersection::Point(a.start);
            } else {
                return SegmentIntersection::NoIntersection;
            }
        }

        // Exactly one segment is a point, or the segments are parallel
        // proper segments: no further overlap check is implemented.
        return SegmentIntersection::NoIntersection;
    }

    proof {
        // Two degenerate segments would have a zero cross product, so in
        // this branch at least one segment is proper.
        if seg_degenerate(a@) && seg_degenerate(b@) {
            assert(dir_a@.x == 0 && dir_a@.y == 0);
            lemma_mul_bound(dir_a@.x, -dir_b@.y, 0, 16384);
            lemma_mul_bound(dir_a@.y, dir_b@.x, 0, 16384);
            assert(false);
        }
    }
    // The segments are not parallel; the general-position intersection
    // point is not computed by this classification.
    SegmentIntersection::NoIntersection
}

} // verus!
