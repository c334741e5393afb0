//! The cross-cutting test suite: every geometry kind exercised through the
//! same `Valid` interface, including the geometry union and collections.

use geo_validity_check::coord::Coord;
use geo_validity_check::geometry::Geometry;
use geo_validity_check::geometrycollection::GeometryCollection;
use geo_validity_check::linestring::LineString;
use geo_validity_check::multilinestring::MultiLineString;
use geo_validity_check::multipoint::MultiPoint;
use geo_validity_check::multipolygon::MultiPolygon;
use geo_validity_check::point::Point;
use geo_validity_check::polygon::Polygon;
use geo_validity_check::{
    CoordinatePosition, GeometryPosition, Problem, ProblemAtPosition, ProblemPosition, RingRole,
    Valid,
};

fn c(x: f64, y: f64) -> Coord {
    Coord::new(x.to_bits(), y.to_bits())
}

fn pt(x: f64, y: f64) -> Point {
    Point::new(x.to_bits(), y.to_bits())
}

fn ls(points: &[(f64, f64)]) -> LineString {
    LineString(points.iter().map(|&(x, y)| c(x, y)).collect())
}

#[test]
fn tests_test_point_valid() {
    let p = pt(0., 0.);
    assert!(p.is_valid());
    assert!(p.explain_invalidity().is_none());
}

#[test]
fn tests_test_point_invalid() {
    let p = pt(f64::NAN, f64::NAN);
    assert!(!p.is_valid());
    assert_eq!(
        p.explain_invalidity(),
        Some(vec![ProblemAtPosition(
            Problem::NotFinite,
            ProblemPosition::Point
        )])
    );
}

#[test]
fn test_multipoint() {
    let mp = MultiPoint(vec![pt(0., 0.), pt(1., 1.)]);
    assert!(mp.is_valid());
    assert!(mp.explain_invalidity().is_none());
}

#[test]
fn tests_test_linestring_valid() {
    let l = ls(&[(0., 0.), (1., 1.)]);
    assert!(l.is_valid());
    assert!(l.explain_invalidity().is_none());
}

#[test]
fn tests_test_linestring_invalid_too_few_points_without_duplicate() {
    let l = ls(&[(0., 0.)]);
    assert!(!l.is_valid());
    assert_eq!(
        l.explain_invalidity(),
        Some(vec![ProblemAtPosition(
            Problem::TooFewPoints,
            ProblemPosition::LineString(CoordinatePosition(None)),
        )])
    );
}

#[test]
fn tests_test_linestring_invalid_too_few_points_with_duplicate() {
    let l = ls(&[(0., 0.), (0., 0.)]);
    assert!(!l.is_valid());
    assert_eq!(
        l.explain_invalidity(),
        Some(vec![ProblemAtPosition(
            Problem::TooFewPoints,
            ProblemPosition::LineString(CoordinatePosition(None)),
        )])
    );
}

#[test]
fn tests_test_multilinestring_valid() {
    let mls = MultiLineString(vec![
        ls(&[(0., 0.), (1., 1.)]),
        ls(&[(3., 1.), (4., 1.)]),
    ]);
    assert!(mls.is_valid());
    assert!(mls.explain_invalidity().is_none());
}

#[test]
fn tests_test_multilinestring_invalid_too_few_points_with_duplicate() {
    // The second LineString (at position 1) of this MultiLineString
    // is not valid because it has only one (deduplicated) point
    let mls = MultiLineString(vec![
        ls(&[(0., 0.), (1., 1.)]),
        ls(&[(0., 0.), (0., 0.)]),
    ]);
    assert!(!mls.is_valid());
    assert_eq!(
        mls.explain_invalidity(),
        Some(vec![ProblemAtPosition(
            Problem::TooFewPoints,
            ProblemPosition::MultiLineString(GeometryPosition(1), CoordinatePosition(None)),
        )])
    );
}

#[test]
fn tests_test_polygon_valid() {
    // Unclosed rings are automatically closed by the constructor,
    // so the following should be valid
    let p = Polygon::new(ls(&[(0., 0.), (1., 1.), (0., 1.)]), vec![]);
    assert!(p.is_valid());
    assert!(p.explain_invalidity().is_none());
}

#[test]
fn tests_test_polygon_valid_interior_ring_touches_exterior_ring() {
    // The following polygon contains an interior ring that touches
    // the exterior ring on one point.
    // This is valid according to the OGC spec.
    let p = Polygon::new(
        ls(&[(0., 0.), (4., 0.), (4., 4.), (0., 4.), (0., 0.)]),
        vec![ls(&[
            (0., 2.), // This point is on the exterior ring
            (2., 1.),
            (3., 2.),
            (2., 3.),
            (0., 2.),
        ])],
    );
    assert!(p.is_valid());
    assert!(p.explain_invalidity().is_none());
}

#[test]
fn tests_test_polygon_valid_interior_rings_touch_at_point() {
    // The following polygon contains two interior rings that touch
    // at one point.
    let p = Polygon::new(
        ls(&[(0., 0.), (4., 0.), (4., 4.), (0., 4.), (0., 0.)]),
        vec![
            ls(&[(1., 2.), (2., 1.), (3., 2.), (2., 3.), (1., 2.)]),
            ls(&[(3., 2.), (3.5, 1.), (3.75, 2.), (3.5, 3.), (3., 2.)]),
        ],
    );
    assert!(p.is_valid());
    assert!(p.explain_invalidity().is_none());
}

#[test]
fn tests_test_polygon_invalid_interior_rings_touch_at_line() {
    // The following polygon contains two interior rings that touch
    // on a line, this is not valid.
    let p = Polygon::new(
        ls(&[(0., 0.), (4., 0.), (4., 4.), (0., 4.), (0., 0.)]),
        vec![
            ls(&[(1., 2.), (2., 1.), (3., 2.), (2., 3.), (1., 2.)]),
            ls(&[
                (3., 2.),
                (2., 1.),
                (3.5, 1.),
                (3.75, 2.),
                (3.5, 3.),
                (3., 2.),
            ]),
        ],
    );
    assert!(!p.is_valid());
    assert_eq!(
        p.explain_invalidity(),
        Some(vec![
            ProblemAtPosition(
                Problem::IntersectingRingsOnALine,
                ProblemPosition::Polygon(RingRole::Interior(0), CoordinatePosition(None)),
            ),
            ProblemAtPosition(
                Problem::IntersectingRingsOnALine,
                ProblemPosition::Polygon(RingRole::Interior(1), CoordinatePosition(None)),
            ),
        ])
    );
}

#[test]
fn tests_test_polygon_invalid_interior_rings_crosses() {
    // The following polygon contains two interior rings that cross
    // each other (they share some common area), this is not valid.
    let p = Polygon::new(
        ls(&[(0., 0.), (4., 0.), (4., 4.), (0., 4.), (0., 0.)]),
        vec![
            ls(&[(1., 2.), (2., 1.), (3., 2.), (2., 3.), (1., 2.)]),
            ls(&[
                (2., 2.),
                (2., 1.),
                (3.5, 1.),
                (3.75, 2.),
                (3.5, 3.),
                (3., 2.),
            ]),
        ],
    );
    assert!(!p.is_valid());
    assert_eq!(
        p.explain_invalidity(),
        Some(vec![
            ProblemAtPosition(
                Problem::IntersectingRingsOnAnArea,
                ProblemPosition::Polygon(RingRole::Interior(0), CoordinatePosition(None)),
            ),
            ProblemAtPosition(
                Problem::IntersectingRingsOnAnArea,
                ProblemPosition::Polygon(RingRole::Interior(1), CoordinatePosition(None)),
            ),
        ])
    );
}

#[test]
fn tests_test_polygon_invalid_interior_ring_touches_exterior_ring_as_line() {
    // The following polygon contains an interior ring that touches
    // the exterior ring along a line, which is not valid.
    let p = Polygon::new(
        ls(&[(0., 0.), (4., 0.), (4., 4.), (0., 4.), (0., 0.)]),
        vec![ls(&[
            (0., 2.), // This point is on the exterior ring
            (0., 1.), // This point is on the exterior ring too
            (2., 1.),
            (3., 2.),
            (2., 3.),
            (0., 2.),
        ])],
    );
    assert!(!p.is_valid());
    assert_eq!(
        p.explain_invalidity(),
        Some(vec![ProblemAtPosition(
            Problem::IntersectingRingsOnALine,
            ProblemPosition::Polygon(RingRole::Interior(0), CoordinatePosition(None)),
        )])
    );
}

#[test]
fn tests_test_polygon_invalid_too_few_point_exterior_ring() {
    // Unclosed rings are automatically closed,
    // but there is still two few points in this ring
    // to be a non-empty polygon
    let p = Polygon::new(ls(&[(0., 0.), (1., 1.)]), vec![]);
    assert!(!p.is_valid());
    assert_eq!(
        p.explain_invalidity(),
        Some(vec![ProblemAtPosition(
            Problem::TooFewPoints,
            ProblemPosition::Polygon(RingRole::Exterior, CoordinatePosition(None)),
        )])
    );
}

#[test]
fn tests_test_polygon_invalid_exterior_is_not_simple() {
    // The exterior ring of this polygon is not simple (i.e. it has a self-intersection)
    let p = Polygon::new(
        ls(&[(0., 0.), (4., 0.), (0., 2.), (4., 2.), (0., 0.)]),
        vec![],
    );
    assert!(!p.is_valid());
    assert_eq!(
        p.explain_invalidity(),
        Some(vec![ProblemAtPosition(
            Problem::SelfIntersection,
            ProblemPosition::Polygon(RingRole::Exterior, CoordinatePosition(None)),
        )])
    );
}

#[test]
fn tests_test_polygon_invalid_interior_not_fully_contained_in_exterior() {
    let p = Polygon::new(
        ls(&[
            (0.5, 0.5),
            (3., 0.5),
            (3., 2.5),
            (0.5, 2.5),
            (0.5, 0.5),
        ]),
        vec![ls(&[(1., 1.), (1., 2.), (2.5, 2.), (3.5, 1.), (1., 1.)])],
    );
    assert!(!p.is_valid());
    assert_eq!(
        p.explain_invalidity(),
        Some(vec![ProblemAtPosition(
            Problem::InteriorRingNotContainedInExteriorRing,
            ProblemPosition::Polygon(RingRole::Interior(0), CoordinatePosition(None)),
        )])
    );
}

#[test]
fn test_multipolygon_valid() {
    // Both elements are invalid (their hole reaches outside the exterior),
    // and the two elements are identical, which each element reports too.
    let mp = MultiPolygon(vec![
        Polygon::new(
            ls(&[
                (0.5, 0.5),
                (3., 0.5),
                (3., 2.5),
                (0.5, 2.5),
                (0.5, 0.5),
            ]),
            vec![ls(&[(1., 1.), (1., 2.), (2.5, 2.), (3.5, 1.), (1., 1.)])],
        ),
        Polygon::new(
            ls(&[
                (0.5, 0.5),
                (3., 0.5),
                (3., 2.5),
                (0.5, 2.5),
                (0.5, 0.5),
            ]),
            vec![ls(&[(1., 1.), (1., 2.), (2.5, 2.), (3.5, 1.), (1., 1.)])],
        ),
    ]);
    assert!(!mp.is_valid());
    assert_eq!(
        mp.explain_invalidity(),
        Some(vec![
            ProblemAtPosition(
                Problem::InteriorRingNotContainedInExteriorRing,
                ProblemPosition::MultiPolygon(
                    GeometryPosition(0),
                    RingRole::Interior(0),
                    CoordinatePosition(None),
                ),
            ),
            ProblemAtPosition(
                Problem::ElementsAreIdentical,
                ProblemPosition::MultiPolygon(
                    GeometryPosition(0),
                    RingRole::Exterior,
                    CoordinatePosition(None),
                ),
            ),
            ProblemAtPosition(
                Problem::InteriorRingNotContainedInExteriorRing,
                ProblemPosition::MultiPolygon(
                    GeometryPosition(1),
                    RingRole::Interior(0),
                    CoordinatePosition(None),
                ),
            ),
            ProblemAtPosition(
                Problem::ElementsAreIdentical,
                ProblemPosition::MultiPolygon(
                    GeometryPosition(1),
                    RingRole::Exterior,
                    CoordinatePosition(None),
                ),
            ),
        ])
    );
}

#[test]
fn test_geometrycollection() {
    let gc = GeometryCollection(vec![Geometry::Point(pt(0., 0.))]);
    assert!(gc.is_valid());
    assert!(gc.explain_invalidity().is_none());
}

#[test]
fn test_geometrycollection_contain_invalid_element() {
    let gc = GeometryCollection(vec![
        Geometry::Point(pt(0., 0.)),
        Geometry::LineString(ls(&[(0., 0.), (1., 1.)])),
        Geometry::LineString(ls(&[(0., 0.), (0., 0.)])),
    ]);
    assert!(!gc.is_valid());
    assert_eq!(
        gc.explain_invalidity(),
        Some(vec![ProblemAtPosition(
            Problem::TooFewPoints,
            ProblemPosition::GeometryCollection(
                GeometryPosition(2),
                Box::new(ProblemPosition::LineString(CoordinatePosition(None))),
            ),
        )])
    );
}

#[test]
fn point_with_nan_component_reports_not_finite() {
    let p = pt(0., f64::NAN);
    assert!(!p.is_valid());
    assert_eq!(
        p.explain_invalidity(),
        Some(vec![ProblemAtPosition(
            Problem::NotFinite,
            ProblemPosition::Point
        )])
    );
}

#[test]
fn collection_wraps_the_member_position() {
    // A valid point next to a degenerate line string: the single finding
    // is wrapped at the offending member's index.
    let gc = GeometryCollection(vec![
        Geometry::Point(pt(0., 0.)),
        Geometry::LineString(ls(&[(0., 0.), (0., 0.)])),
    ]);
    assert!(!gc.is_valid());
    assert_eq!(
        gc.explain_invalidity(),
        Some(vec![ProblemAtPosition(
            Problem::TooFewPoints,
            ProblemPosition::GeometryCollection(
                GeometryPosition(1),
                Box::new(ProblemPosition::LineString(CoordinatePosition(None))),
            ),
        )])
    );
}

#[test]
fn nested_collections_wrap_positions_at_each_level() {
    let inner = GeometryCollection(vec![
        Geometry::Point(pt(0., 0.)),
        Geometry::LineString(ls(&[(2., 2.), (2., 2.)])),
    ]);
    let outer = GeometryCollection(vec![
        Geometry::LineString(ls(&[(0., 0.), (1., 1.)])),
        Geometry::GeometryCollection(inner),
    ]);
    assert!(!outer.is_valid());
    assert_eq!(
        outer.explain_invalidity(),
        Some(vec![ProblemAtPosition(
            Problem::TooFewPoints,
            ProblemPosition::GeometryCollection(
                GeometryPosition(1),
                Box::new(ProblemPosition::GeometryCollection(
                    GeometryPosition(1),
                    Box::new(ProblemPosition::LineString(CoordinatePosition(None))),
                )),
            ),
        )])
    );
}
