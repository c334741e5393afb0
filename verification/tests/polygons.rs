//! Tests for the polygon and multi-polygon topology checkers.

use geo_validity_check::coord::Coord;
use geo_validity_check::linestring::LineString;
use geo_validity_check::multipolygon::MultiPolygon;
use geo_validity_check::polygon::Polygon;
use geo_validity_check::{
    CoordinatePosition, GeometryPosition, Problem, ProblemAtPosition, ProblemPosition, RingRole,
    Valid,
};

fn c(x: f64, y: f64) -> Coord {
    Coord::new(x.to_bits(), y.to_bits())
}

fn ls(points: &[(f64, f64)]) -> LineString {
    LineString(points.iter().map(|&(x, y)| c(x, y)).collect())
}

#[test]
fn polygon_test_polygon_valid() {
    // Unclosed rings are automatically closed by the constructor,
    // so the following should be valid
    let p = Polygon::new(ls(&[(0., 0.), (1., 1.), (0., 1.)]), vec![]);
    assert!(p.is_valid());
    assert!(p.explain_invalidity().is_none());
}

#[test]
fn polygon_test_polygon_valid_interior_ring_touches_exterior_ring() {
    // The following polygon contains an interior ring that touches
    // the exterior ring on one point.
    // This is valid according to the OGC spec.
    let p = Polygon::new(
        ls(&[(0., 0.), (4., 0.), (4., 4.), (0., 4.), (0., 0.)]),
        vec![ls(&[
            (0., 2.), // This point is on the exterior ring
            (2., 1.),
            (3., 2.),
            (2., 3.),
            (0., 2.),
        ])],
    );
    assert!(p.is_valid());
    assert!(p.explain_invalidity().is_none());
}

#[test]
fn polygon_test_polygon_valid_interior_rings_touch_at_point() {
    // The following polygon contains two interior rings that touch
    // at one point.
    let p = Polygon::new(
        ls(&[(0., 0.), (4., 0.), (4., 4.), (0., 4.), (0., 0.)]),
        vec![
            ls(&[(1., 2.), (2., 1.), (3., 2.), (2., 3.), (1., 2.)]),
            ls(&[(3., 2.), (3.5, 1.), (3.75, 2.), (3.5, 3.), (3., 2.)]),
        ],
    );
    assert!(p.is_valid());
    assert!(p.explain_invalidity().is_none());
}

#[test]
fn polygon_test_polygon_invalid_interior_rings_touch_at_line() {
    // The following polygon contains two interior rings that touch
    // on a line, this is not valid.
    let p = Polygon::new(
        ls(&[(0., 0.), (4., 0.), (4., 4.), (0., 4.), (0., 0.)]),
        vec![
            ls(&[(1., 2.), (2., 1.), (3., 2.), (2., 3.), (1., 2.)]),
            ls(&[
                (3., 2.),
                (2., 1.),
                (3.5, 1.),
                (3.75, 2.),
                (3.5, 3.),
                (3., 2.),
            ]),
        ],
    );
    assert!(!p.is_valid());
    assert_eq!(
        p.explain_invalidity(),
        Some(vec![
            ProblemAtPosition(
                Problem::IntersectingRingsOnALine,
                ProblemPosition::Polygon(RingRole::Interior(0), CoordinatePosition(None)),
            ),
            ProblemAtPosition(
                Problem::IntersectingRingsOnALine,
                ProblemPosition::Polygon(RingRole::Interior(1), CoordinatePosition(None)),
            ),
        ])
    );
}

#[test]
fn polygon_test_polygon_invalid_interior_rings_crosses() {
    // The following polygon contains two interior rings that cross
    // each other (they share some common area), this is not valid.
    let p = Polygon::new(
        ls(&[(0., 0.), (4., 0.), (4., 4.), (0., 4.), (0., 0.)]),
        vec![
            ls(&[(1., 2.), (2., 1.), (3., 2.), (2., 3.), (1., 2.)]),
            ls(&[
                (2., 2.),
                (2., 1.),
                (3.5, 1.),
                (3.75, 2.),
                (3.5, 3.),
                (3., 2.),
            ]),
        ],
    );
    assert!(!p.is_valid());
    assert_eq!(
        p.explain_invalidity(),
        Some(vec![
            ProblemAtPosition(
                Problem::IntersectingRingsOnAnArea,
                ProblemPosition::Polygon(RingRole::Interior(0), CoordinatePosition(None)),
            ),
            ProblemAtPosition(
                Problem::IntersectingRingsOnAnArea,
                ProblemPosition::Polygon(RingRole::Interior(1), CoordinatePosition(None)),
            ),
        ])
    );
}

#[test]
fn polygon_test_polygon_invalid_interior_ring_touches_exterior_ring_as_line() {
    // The following polygon contains an interior ring that touches
    // the exterior ring along a line, which is not valid.
    let p = Polygon::new(
        ls(&[(0., 0.), (4., 0.), (4., 4.), (0., 4.), (0., 0.)]),
        vec![ls(&[
            (0., 2.), // This point is on the exterior ring
            (0., 1.), // This point is on the exterior ring too
            (2., 1.),
            (3., 2.),
            (2., 3.),
            (0., 2.),
        ])],
    );
    assert!(!p.is_valid());
    assert_eq!(
        p.explain_invalidity(),
        Some(vec![ProblemAtPosition(
            Problem::IntersectingRingsOnALine,
            ProblemPosition::Polygon(RingRole::Interior(0), CoordinatePosition(None)),
        )])
    );
}

#[test]
fn polygon_test_polygon_invalid_too_few_point_exterior_ring() {
    // Unclosed rings are automatically closed,
    // but there is still two few points in this ring
    // to be a non-empty polygon
    let p = Polygon::new(ls(&[(0., 0.), (1., 1.)]), vec![]);
    assert!(!p.is_valid());
    assert_eq!(
        p.explain_invalidity(),
        Some(vec![ProblemAtPosition(
            Problem::TooFewPoints,
            ProblemPosition::Polygon(RingRole::Exterior, CoordinatePosition(None)),
        )])
    );
}

#[test]
fn test_polygon_invalid_spike() {
    // The following polygon contains a spike
    let p = Polygon::new(
        ls(&[
            (0., 0.),
            (4., 0.),
            (4., 4.),
            (2., 4.),
            (2., 6.),
            (2., 4.),
            (0., 4.),
            (0., 0.),
        ]),
        vec![],
    );
    assert!(!p.is_valid());
    assert_eq!(
        p.explain_invalidity(),
        Some(vec![ProblemAtPosition(
            Problem::SelfIntersection,
            ProblemPosition::Polygon(RingRole::Exterior, CoordinatePosition(None)),
        )])
    );
}

#[test]
fn polygon_test_polygon_invalid_exterior_is_not_simple() {
    // The exterior ring of this polygon is not simple (i.e. it has a self-intersection)
    let p = Polygon::new(
        ls(&[(0., 0.), (4., 0.), (0., 2.), (4., 2.), (0., 0.)]),
        vec![],
    );
    assert!(!p.is_valid());
    assert_eq!(
        p.explain_invalidity(),
        Some(vec![ProblemAtPosition(
            Problem::SelfIntersection,
            ProblemPosition::Polygon(RingRole::Exterior, CoordinatePosition(None)),
        )])
    );
}

#[test]
fn polygon_test_polygon_invalid_interior_not_fully_contained_in_exterior() {
    let p = Polygon::new(
        ls(&[
            (0.5, 0.5),
            (3., 0.5),
            (3., 2.5),
            (0.5, 2.5),
            (0.5, 0.5),
        ]),
        vec![ls(&[(1., 1.), (1., 2.), (2.5, 2.), (3.5, 1.), (1., 1.)])],
    );
    assert!(!p.is_valid());
    assert_eq!(
        p.explain_invalidity(),
        Some(vec![ProblemAtPosition(
            Problem::InteriorRingNotContainedInExteriorRing,
            ProblemPosition::Polygon(RingRole::Interior(0), CoordinatePosition(None)),
        )])
    );
}

#[test]
fn test_multipolygon_invalid() {
    // The following multipolygon contains two invalid polygons
    // and it is invalid itself because the two polygons of the multipolygon
    // are identical
    let mp = MultiPolygon(vec![
        Polygon::new(
            ls(&[
                (0.5, 0.5),
                (3., 0.5),
                (3., 2.5),
                (0.5, 2.5),
                (0.5, 0.5),
            ]),
            vec![ls(&[(1., 1.), (1., 2.), (2.5, 2.), (3.5, 1.), (1., 1.)])],
        ),
        Polygon::new(
            ls(&[
                (0.5, 0.5),
                (3., 0.5),
                (3., 2.5),
                (0.5, 2.5),
                (0.5, 0.5),
            ]),
            vec![ls(&[(1., 1.), (1., 2.), (2.5, 2.), (3.5, 1.), (1., 1.)])],
        ),
    ]);
    assert!(!mp.is_valid());
    assert_eq!(
        mp.explain_invalidity(),
        Some(vec![
            ProblemAtPosition(
                Problem::InteriorRingNotContainedInExteriorRing,
                ProblemPosition::MultiPolygon(
                    GeometryPosition(0),
                    RingRole::Interior(0),
                    CoordinatePosition(None),
                ),
            ),
            ProblemAtPosition(
                Problem::ElementsAreIdentical,
                ProblemPosition::MultiPolygon(
                    GeometryPosition(0),
                    RingRole::Exterior,
                    CoordinatePosition(None),
                ),
            ),
            ProblemAtPosition(
                Problem::InteriorRingNotContainedInExteriorRing,
                ProblemPosition::MultiPolygon(
                    GeometryPosition(1),
                    RingRole::Interior(0),
                    CoordinatePosition(None),
                ),
            ),
            ProblemAtPosition(
                Problem::ElementsAreIdentical,
                ProblemPosition::MultiPolygon(
                    GeometryPosition(1),
                    RingRole::Exterior,
                    CoordinatePosition(None),
                ),
            ),
        ])
    );
}

#[test]
fn multipolygon_overlapping_elements_are_reported() {
    // Two squares sharing interior area: each element reports the overlap.
    let mp = MultiPolygon(vec![
        Polygon::new(ls(&[(0., 0.), (4., 0.), (4., 4.), (0., 4.), (0., 0.)]), vec![]),
        Polygon::new(ls(&[(2., 2.), (6., 2.), (6., 6.), (2., 6.), (2., 2.)]), vec![]),
    ]);
    assert!(!mp.is_valid());
    assert_eq!(
        mp.explain_invalidity(),
        Some(vec![
            ProblemAtPosition(
                Problem::ElementsOverlaps,
                ProblemPosition::MultiPolygon(
                    GeometryPosition(0),
                    RingRole::Exterior,
                    CoordinatePosition(None),
                ),
            ),
            ProblemAtPosition(
                Problem::ElementsOverlaps,
                ProblemPosition::MultiPolygon(
                    GeometryPosition(1),
                    RingRole::Exterior,
                    CoordinatePosition(None),
                ),
            ),
        ])
    );
}

#[test]
fn multipolygon_elements_touching_on_a_line_are_reported() {
    // Two squares sharing a whole edge: each element reports the shared line.
    let mp = MultiPolygon(vec![
        Polygon::new(ls(&[(0., 0.), (2., 0.), (2., 2.), (0., 2.), (0., 0.)]), vec![]),
        Polygon::new(ls(&[(2., 0.), (4., 0.), (4., 2.), (2., 2.), (2., 0.)]), vec![]),
    ]);
    assert!(!mp.is_valid());
    assert_eq!(
        mp.explain_invalidity(),
        Some(vec![
            ProblemAtPosition(
                Problem::ElementsTouchOnALine,
                ProblemPosition::MultiPolygon(
                    GeometryPosition(0),
                    RingRole::Exterior,
                    CoordinatePosition(None),
                ),
            ),
            ProblemAtPosition(
                Problem::ElementsTouchOnALine,
                ProblemPosition::MultiPolygon(
                    GeometryPosition(1),
                    RingRole::Exterior,
                    CoordinatePosition(None),
                ),
            ),
        ])
    );
}

#[test]
fn multipolygon_elements_touching_at_a_point_are_valid() {
    // Two squares sharing a single corner: a point contact is legal.
    let mp = MultiPolygon(vec![
        Polygon::new(ls(&[(0., 0.), (2., 0.), (2., 2.), (0., 2.), (0., 0.)]), vec![]),
        Polygon::new(ls(&[(2., 2.), (4., 2.), (4., 4.), (2., 4.), (2., 2.)]), vec![]),
    ]);
    assert!(mp.is_valid());
    assert!(mp.explain_invalidity().is_none());
}

#[test]
fn explaining_twice_yields_the_same_report() {
    let mp = MultiPolygon(vec![
        Polygon::new(
            ls(&[
                (0.5, 0.5),
                (3., 0.5),
                (3., 2.5),
                (0.5, 2.5),
                (0.5, 0.5),
            ]),
            vec![ls(&[(1., 1.), (1., 2.), (2.5, 2.), (3.5, 1.), (1., 1.)])],
        ),
        Polygon::new(
            ls(&[
                (0.5, 0.5),
                (3., 0.5),
                (3., 2.5),
                (0.5, 2.5),
                (0.5, 0.5),
            ]),
            vec![ls(&[(1., 1.), (1., 2.), (2.5, 2.), (3.5, 1.), (1., 1.)])],
        ),
    ]);
    let first = mp.explain_invalidity();
    let second = mp.explain_invalidity();
    assert!(first.is_some());
    assert_eq!(first, second);
}
