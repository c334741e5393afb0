//! Tests for the leaf validators: coordinates, points, lines, line
//! strings, triangles, rectangles, and their multi-geometries.

use geo_validity_check::coord::Coord;
use geo_validity_check::line::Line;
use geo_validity_check::linestring::LineString;
use geo_validity_check::multilinestring::MultiLineString;
use geo_validity_check::multipoint::MultiPoint;
use geo_validity_check::point::Point;
use geo_validity_check::rect::Rect;
use geo_validity_check::triangle::Triangle;
use geo_validity_check::{
    CoordinatePosition, GeometryPosition, Problem, ProblemAtPosition, ProblemPosition, Valid,
};

fn c(x: f64, y: f64) -> Coord {
    Coord::new(x.to_bits(), y.to_bits())
}

fn pt(x: f64, y: f64) -> Point {
    Point::new(x.to_bits(), y.to_bits())
}

fn ls(points: &[(f64, f64)]) -> LineString {
    LineString(points.iter().map(|&(x, y)| c(x, y)).collect())
}

#[test]
fn test_line_valid() {
    let l = Line::new(c(0., 0.), c(1., 1.));
    assert!(l.is_valid());
    assert!(l.explain_invalidity().is_none());
}

#[test]
fn test_line_invalid_not_finite_coords() {
    let l = Line::new(c(0., 0.), c(f64::NEG_INFINITY, 0.));
    assert!(!l.is_valid());
    assert_eq!(
        l.explain_invalidity(),
        Some(vec![ProblemAtPosition(
            Problem::NotFinite,
            ProblemPosition::Line(CoordinatePosition(Some(1))),
        )])
    );
}

#[test]
fn test_line_invalid_same_points() {
    let l = Line::new(c(0., 0.), c(0., 0.));
    assert!(!l.is_valid());
    assert_eq!(
        l.explain_invalidity(),
        Some(vec![ProblemAtPosition(
            Problem::IdenticalCoords,
            ProblemPosition::Line(CoordinatePosition(Some(0))),
        )])
    );
}

#[test]
fn point_test_point_valid() {
    let p = pt(0., 0.);
    assert!(p.is_valid());
    assert!(p.explain_invalidity().is_none());
}

#[test]
fn point_test_point_invalid() {
    let p = pt(f64::NAN, f64::NAN);
    assert!(!p.is_valid());
    assert_eq!(
        p.explain_invalidity(),
        Some(vec![ProblemAtPosition(
            Problem::NotFinite,
            ProblemPosition::Point
        )])
    );
}

#[test]
fn point_with_one_bad_component_is_invalid() {
    let p = pt(0., f64::NAN);
    assert!(!p.is_valid());
    assert_eq!(
        p.explain_invalidity(),
        Some(vec![ProblemAtPosition(
            Problem::NotFinite,
            ProblemPosition::Point
        )])
    );
}

#[test]
fn linestring_test_linestring_valid() {
    let l = ls(&[(0., 0.), (1., 1.)]);
    assert!(l.is_valid());
    assert!(l.explain_invalidity().is_none());
}

#[test]
fn linestring_test_linestring_invalid_too_few_points_without_duplicate() {
    let l = ls(&[(0., 0.)]);
    assert!(!l.is_valid());
    assert_eq!(
        l.explain_invalidity(),
        Some(vec![ProblemAtPosition(
            Problem::TooFewPoints,
            ProblemPosition::LineString(CoordinatePosition(None)),
        )])
    );
}

#[test]
fn linestring_test_linestring_invalid_too_few_points_with_duplicate() {
    let l = ls(&[(0., 0.), (0., 0.)]);
    assert!(!l.is_valid());
    assert_eq!(
        l.explain_invalidity(),
        Some(vec![ProblemAtPosition(
            Problem::TooFewPoints,
            ProblemPosition::LineString(CoordinatePosition(None)),
        )])
    );
}

#[test]
fn empty_linestring_has_too_few_points() {
    let l = ls(&[]);
    assert!(!l.is_valid());
    assert_eq!(
        l.explain_invalidity(),
        Some(vec![ProblemAtPosition(
            Problem::TooFewPoints,
            ProblemPosition::LineString(CoordinatePosition(None)),
        )])
    );
}

#[test]
fn multilinestring_test_multilinestring_valid() {
    let mls = MultiLineString(vec![
        ls(&[(0., 0.), (1., 1.)]),
        ls(&[(3., 1.), (4., 1.)]),
    ]);
    assert!(mls.is_valid());
    assert!(mls.explain_invalidity().is_none());
}

#[test]
fn multilinestring_test_multilinestring_invalid_too_few_points_with_duplicate() {
    // The second LineString (at position 1) of this MultiLineString
    // is not valid because it has only one (deduplicated) point
    let mls = MultiLineString(vec![
        ls(&[(0., 0.), (1., 1.)]),
        ls(&[(0., 0.), (0., 0.)]),
    ]);
    assert!(!mls.is_valid());
    assert_eq!(
        mls.explain_invalidity(),
        Some(vec![ProblemAtPosition(
            Problem::TooFewPoints,
            ProblemPosition::MultiLineString(GeometryPosition(1), CoordinatePosition(None)),
        )])
    );
}

#[test]
fn test_multipoint_valid() {
    let mp = MultiPoint(vec![pt(0., 0.), pt(1., 1.)]);
    assert!(mp.is_valid());
    assert!(mp.explain_invalidity().is_none());
}

#[test]
fn test_multipoint_invalid() {
    let mp = MultiPoint(vec![pt(0., f64::INFINITY), pt(f64::NAN, 1.)]);
    assert!(!mp.is_valid());
    assert_eq!(
        mp.explain_invalidity(),
        Some(vec![
            ProblemAtPosition(
                Problem::NotFinite,
                ProblemPosition::MultiPoint(GeometryPosition(0)),
            ),
            ProblemAtPosition(
                Problem::NotFinite,
                ProblemPosition::MultiPoint(GeometryPosition(1)),
            ),
        ])
    );
}

#[test]
fn triangle_valid() {
    let t = Triangle(c(0., 0.), c(3., 0.), c(0., 4.));
    assert!(t.is_valid());
    assert!(t.explain_invalidity().is_none());
}

#[test]
fn triangle_collinear_vertices_are_invalid() {
    let t = Triangle(c(0., 0.), c(1., 1.), c(2., 2.));
    assert!(!t.is_valid());
    assert_eq!(
        t.explain_invalidity(),
        Some(vec![ProblemAtPosition(
            Problem::CollinearCoords,
            ProblemPosition::Triangle(CoordinatePosition(None)),
        )])
    );
}

#[test]
fn triangle_identical_vertices_are_invalid() {
    let t = Triangle(c(0., 0.), c(0., 0.), c(0., 4.));
    assert!(!t.is_valid());
    assert_eq!(
        t.explain_invalidity(),
        Some(vec![
            ProblemAtPosition(
                Problem::IdenticalCoords,
                ProblemPosition::Triangle(CoordinatePosition(Some(0))),
            ),
            ProblemAtPosition(
                Problem::CollinearCoords,
                ProblemPosition::Triangle(CoordinatePosition(None)),
            ),
        ])
    );
}

#[test]
fn triangle_determinant_below_tolerance_is_collinear() {
    // The determinant of these vertices is 1.0e-11, below the 1.0e-10
    // tolerance of the collinearity test.
    let t = Triangle(c(0., 0.), c(1., 0.), c(2., 1.0e-11));
    assert!(!t.is_valid());
    assert_eq!(
        t.explain_invalidity(),
        Some(vec![ProblemAtPosition(
            Problem::CollinearCoords,
            ProblemPosition::Triangle(CoordinatePosition(None)),
        )])
    );
}

#[test]
fn triangle_determinant_above_tolerance_is_not_collinear() {
    // The determinant of these vertices is 1.0e-9, above the tolerance.
    let t = Triangle(c(0., 0.), c(1., 0.), c(2., 1.0e-9));
    assert!(t.is_valid());
    assert!(t.explain_invalidity().is_none());
}

#[test]
fn rect_valid() {
    let r = Rect::new(c(0., 0.), c(2., 2.));
    assert!(r.is_valid());
    assert!(r.explain_invalidity().is_none());
}

#[test]
fn rect_with_non_finite_corner_is_invalid() {
    let r = Rect::new(c(0., 0.), c(f64::NAN, 2.));
    assert!(!r.is_valid());
    assert_eq!(
        r.explain_invalidity(),
        Some(vec![ProblemAtPosition(
            Problem::NotFinite,
            ProblemPosition::Rect(CoordinatePosition(Some(1))),
        )])
    );
}
