//! Tests for the primitives, distances and conversions.

use compgeo::distance_to_point::DistanceToPoint;
use compgeo::infinite::Line;
use compgeo::operations::{perp_unit2d, perp_vec2d};
use compgeo::rational::Rat;
use compgeo::ray::Ray;
use compgeo::segment::Segment;
use compgeo::vector::{Point, Vec2};

#[test]
fn perp_vec2d_rotates_counterclockwise() {
    let v = Vec2::new(1, 1, 1);
    let r = perp_vec2d(&v);
    assert_eq!(r, Vec2::new(-1, 1, 1));
}

#[test]
fn perp_unit2d_keeps_unit_length_exactly() {
    let v = Vec2::new(3, 4, 5);
    let r = perp_unit2d(&v);
    assert_eq!(r, Vec2::new(-4, 3, 5));
}

#[test]
fn point_distance_squared_is_squared_offset() {
    let a = Point::from_ints(1, 1);
    let b = Point::from_ints(4, 5);
    let d = a.distance_to_point_squared(&b);
    assert!(d.eq_value(&Rat::from_int(25)));
}

#[test]
fn line_distance_is_dot_plus_offset() {
    // Horizontal line through the origin with upward normal: the signed
    // distance of a point is its height.
    let line = Line::new(Vec2::new(0, 1, 1), Rat::from_int(0));
    let d = line.distance_to_point(&Point::new(6, 5, 2));
    assert!(d.eq_value(&Rat::new(5, 2)));

    // An offset shifts the distance: normal (0, 1), c = -2.
    let line = Line::new(Vec2::new(0, 1, 1), Rat::from_int(-2));
    let d = line.distance_to_point(&Point::new(6, 5, 2));
    assert!(d.eq_value(&Rat::new(1, 2)));

    // The sign flips on the other side of the line.
    let d = line.distance_to_point(&Point::from_ints(3, 1));
    assert!(d.eq_value(&Rat::from_int(-1)));
}

#[test]
fn line_distance_squared_is_square_of_distance() {
    let line = Line::new(Vec2::new(0, 1, 1), Rat::from_int(-2));
    let d = line.distance_to_point(&Point::new(6, 5, 2));
    let sq = line.distance_to_point_squared(&Point::new(6, 5, 2));
    assert!(sq.eq_value(&Rat::new(1, 4)));
    // Exactly the square of the signed distance.
    let dd = Rat::new(d.num * d.num, d.den * d.den);
    assert!(sq.eq_value(&dd));
}

#[test]
fn ray_distance_squared_is_negative_behind_origin() {
    // Ray at (2, 2) pointing along (0, 1); the point (1, 1) is behind
    // the origin, so the result is the negated squared offset length,
    // -(sqrt 2)^2 = -2.
    let ray = Ray::new(Point::from_ints(2, 2), Vec2::new(0, 1, 1));
    let d = ray.distance_to_point_squared(&Point::from_ints(1, 1));
    assert!(d.eq_value(&Rat::from_int(-2)));
}

#[test]
fn ray_distance_squared_is_perpendicular_in_front() {
    // The point (1, 5) is in front of the ray, one unit to the side.
    let ray = Ray::new(Point::from_ints(2, 2), Vec2::new(0, 1, 1));
    let d = ray.distance_to_point_squared(&Point::from_ints(1, 5));
    assert!(d.eq_value(&Rat::from_int(1)));
}

#[test]
fn ray_distance_squared_is_negative_at_the_boundary() {
    // A point level with the origin projects to exactly zero, which the
    // convention treats as behind.
    let ray = Ray::new(Point::from_ints(2, 2), Vec2::new(0, 1, 1));
    let d = ray.distance_to_point_squared(&Point::from_ints(4, 2));
    assert!(d.eq_value(&Rat::from_int(-4)));
}

#[test]
fn closest_point_between_endpoints() {
    let segment = Segment::new(Point::from_ints(2, 2), Point::from_ints(6, 6));
    let c = segment.closest_point(&Point::from_ints(5, 3));
    assert!(c.eq_point(&Point::from_ints(4, 4)));
}

#[test]
fn closest_point_before_the_start_point() {
    let segment = Segment::new(Point::from_ints(2, 2), Point::from_ints(6, 6));
    // The point (2, 0.5) projects before the start.
    let c = segment.closest_point(&Point::new(4, 1, 2));
    assert!(c.eq_point(&Point::from_ints(2, 2)));
}

#[test]
fn closest_point_after_the_end_point() {
    let segment = Segment::new(Point::from_ints(2, 2), Point::from_ints(6, 6));
    let c = segment.closest_point(&Point::from_ints(10, 7));
    assert!(c.eq_point(&Point::from_ints(6, 6)));
}

#[test]
fn closest_point_boundary_tie_goes_to_start() {
    // c1 == 0 exactly: the projection lands on the start point.
    let segment = Segment::new(Point::from_ints(0, 0), Point::from_ints(4, 0));
    let c = segment.closest_point(&Point::from_ints(0, 3));
    assert!(c.eq_point(&Point::from_ints(0, 0)));
}

#[test]
fn segment_length_squared_is_exact() {
    let segment = Segment::new(Point::from_ints(2, 2), Point::from_ints(6, 6));
    let l = segment.length_squared();
    assert!(l.eq_value(&Rat::from_int(32)));
}

#[test]
fn degenerate_segment_has_zero_length_squared() {
    let segment = Segment::new(Point::from_ints(3, 3), Point::from_ints(3, 3));
    assert!(segment.length_squared().is_zero());
}

#[test]
fn segment_distance_squared_uses_the_closest_point() {
    let segment = Segment::new(Point::from_ints(2, 2), Point::from_ints(6, 6));
    let d = segment.distance_to_point_squared(&Point::from_ints(5, 3));
    assert!(d.eq_value(&Rat::from_int(2)));
}

#[test]
fn ray_from_segment_normalizes_exactly() {
    // A 3-4-5 displacement has rational length 5, so the conversion is
    // exact and the direction is exactly unit.
    let segment = Segment::new(Point::from_ints(1, 1), Point::from_ints(5, 4));
    let ray = Ray::from_segment(&segment, &Rat::from_int(5));
    assert_eq!(ray.origin, Point::from_ints(1, 1));
    assert_eq!(ray.direction, Vec2::new(4, 3, 5));
}

#[test]
fn segment_to_ray_round_trip_restores_endpoints() {
    let segment = Segment::new(Point::from_ints(1, 1), Point::from_ints(5, 4));
    let ray = Ray::from_segment(&segment, &Rat::from_int(5));
    let back = ray.as_segment(&Rat::from_int(5));
    assert_eq!(back.start, Point::from_ints(1, 1));
    assert!(back.end.eq_point(&Point::from_ints(5, 4)));
}

#[test]
fn as_segment_with_negative_length_points_backward() {
    let ray = Ray::new(Point::from_ints(2, 2), Vec2::new(0, 1, 1));
    let segment = ray.as_segment(&Rat::from_int(-3));
    assert_eq!(segment.start, Point::from_ints(2, 2));
    assert!(segment.end.eq_point(&Point::from_ints(2, -1)));
}

#[test]
fn line_from_ray_contains_the_ray_origin() {
    let ray = Ray::new(Point::from_ints(1, 1), Vec2::new(0, 1, 1));
    let line = Line::from_ray(&ray);
    assert_eq!(line.normal, Vec2::new(-1, 0, 1));
    assert!(line.distance_to_point(&Point::from_ints(1, 1)).is_zero());
    // A point further along the x-axis sits on the negative side of the
    // leftward normal.
    let d = line.distance_to_point(&Point::from_ints(3, 2));
    assert!(d.eq_value(&Rat::from_int(-2)));
}

#[test]
fn line_from_segment_chain_is_deterministic() {
    // Converting a segment to a ray and the ray to a line twice yields
    // the same normal and offset, exactly.
    let segment = Segment::new(Point::from_ints(1, 1), Point::from_ints(5, 4));
    let first = Line::from_ray(&Ray::from_segment(&segment, &Rat::from_int(5)));
    let second = Line::from_ray(&Ray::from_segment(&segment, &Rat::from_int(5)));
    assert_eq!(first.normal, second.normal);
    assert_eq!(first.c, second.c);
    // And the resulting line passes through both endpoints.
    assert!(first.distance_to_point(&Point::from_ints(1, 1)).is_zero());
    assert!(first.distance_to_point(&Point::from_ints(5, 4)).is_zero());
}

#[test]
fn closest_point_is_no_farther_than_sample_points() {
    // Optimality on concrete values: the closest point's squared distance
    // is no larger than the squared distance to other points of the
    // segment.
    let segment = Segment::new(Point::from_ints(2, 2), Point::from_ints(6, 6));
    let p = Point::from_ints(5, 3);
    let best = segment.distance_to_point_squared(&p);
    assert!(best.eq_value(&Rat::from_int(2)));
    let d_start = p.distance_to_point_squared(&Point::from_ints(2, 2));
    let d_mid = p.distance_to_point_squared(&Point::from_ints(3, 3));
    let d_end = p.distance_to_point_squared(&Point::from_ints(6, 6));
    assert!(best.le_value(&d_start));
    assert!(best.le_value(&d_mid));
    assert!(best.le_value(&d_end));
}
