//! Tests for the segment-segment intersection classification.

use compgeo::intersection::{intersect_segments, SegmentIntersection};
use compgeo::segment::Segment;
use compgeo::vector::Point;

#[test]
pub fn segments_should_not_intersect_when_parallel_and_non_overlapping() {
    let s1 = Segment::new(Point::from_ints(0, 0), Point::from_ints(1, 0));
    let s2 = Segment::new(Point::from_ints(0, 1), Point::from_ints(2, 1));
    assert!(intersect_segments(&s1, &s2) == SegmentIntersection::NoIntersection);
}

#[test]
pub fn segments_should_not_intersect_when_theyre_just_separate_points() {
    let s1 = Segment::new(Point::from_ints(0, 0), Point::from_ints(0, 0));
    let s2 = Segment::new(Point::from_ints(1, 0), Point::from_ints(1, 0));
    assert!(intersect_segments(&s1, &s2) == SegmentIntersection::NoIntersection);
}

#[test]
pub fn segments_should_intersect_when_theyre_identical_separate_points() {
    let s1 = Segment::new(Point::from_ints(1, 0), Point::from_ints(1, 0));
    let s2 = Segment::new(Point::from_ints(1, 0), Point::from_ints(1, 0));
    assert!(
        intersect_segments(&s1, &s2)
            == SegmentIntersection::Point(Point::from_ints(1, 0))
    );
}

#[test]
fn coincident_points_with_different_representations_intersect() {
    // (2, 2) written over denominator 1 and over denominator 2: the
    // degenerate-case point comparison is exact value equality, not
    // representation equality.
    let s1 = Segment::new(Point::from_ints(2, 2), Point::from_ints(2, 2));
    let s2 = Segment::new(Point::new(4, 4, 2), Point::new(4, 4, 2));
    match intersect_segments(&s1, &s2) {
        SegmentIntersection::Point(p) => {
            assert!(p.eq_point(&Point::from_ints(2, 2)));
        }
        _ => panic!("expected a point intersection"),
    }
}

#[test]
fn non_parallel_segments_report_no_intersection() {
    // The general-position branch is a documented limitation: crossing
    // segments still classify as no intersection.
    let s1 = Segment::new(Point::from_ints(0, 0), Point::from_ints(2, 2));
    let s2 = Segment::new(Point::from_ints(0, 2), Point::from_ints(2, 0));
    assert!(intersect_segments(&s1, &s2) == SegmentIntersection::NoIntersection);
}

#[test]
fn one_degenerate_segment_reports_no_intersection() {
    // A point lying on a parallel proper segment: the partially
    // degenerate branch is not implemented and reports no intersection.
    let s1 = Segment::new(Point::from_ints(1, 0), Point::from_ints(1, 0));
    let s2 = Segment::new(Point::from_ints(0, 0), Point::from_ints(2, 0));
    assert!(intersect_segments(&s1, &s2) == SegmentIntersection::NoIntersection);
}
