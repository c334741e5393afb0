//! The trusted boundary: the low-level geometric predicates.
//!
//! The validity rules combine a handful of geometric predicates — pairwise
//! segment intersection, topological containment, the DE-9IM relate matrix,
//! and a collinearity test with a fixed tolerance. Those are supplied by the
//! `geo` crate (and, for the collinearity determinant, by the processor's
//! IEEE-754 arithmetic); each is wrapped here in an `external_body` function
//! whose contract names its result, so that everything built on top of them
//! is verified.
//!
//! Each predicate is deterministic: its result depends on the coordinate
//! bits alone, never on the process, the machine or any hidden state, so
//! naming the result of a call is sound. `geo` documents that `Relate` (and
//! `Contains`, which `geo` derives from it) must not be called on geometries
//! with NaN coordinates, and the rules of this crate only rely on those
//! predicates for finite coordinates, so the wrappers require finiteness.

use crate::coord::{Coord, all_finite};
use crate::linestring::{LineString, rings_view};
use std::primitive::f64 as Double;
use geo::Contains;
use geo::Intersects;
use geo::Relate;
use geo::coordinate_position::CoordPos;
use geo::dimensions::Dimensions as GeoDimensions;
use geo_types::Coord as GeoCoord;
use geo_types::Line as GeoLine;
use geo_types::LineString as GeoLineString;
use geo_types::Polygon as GeoPolygon;
use vstd::prelude::*;

verus! {

/// The dimension of an intersection set, as a DE-9IM matrix entry reports
/// it: empty, a point set, a line, or an area.
#[derive(Debug, PartialEq, Eq, Clone, Copy, Structural)]
pub enum Dimension {
    Empty,
    ZeroDimensional,
    OneDimensional,
    TwoDimensional,
}

/// Whether the closed segment `a0`-`a1` meets the closed segment `b0`-`b1`
/// in at least one point.
pub uninterp spec fn segs_intersect(a0: Coord, a1: Coord, b0: Coord, b1: Coord) -> bool;

/// Whether the polygon whose exterior is `hull` (and which has no holes)
/// topologically contains `ring`; touching the hull's boundary does not
/// spoil containment.
pub uninterp spec fn hull_contains_ring(hull: Seq<Coord>, ring: Seq<Coord>) -> bool;

/// The dimension of the intersection between the boundary of the hole-free
/// polygon over `hull` and the interior of `ring`.
pub uninterp spec fn hull_ring_boundary_inside(hull: Seq<Coord>, ring: Seq<Coord>) -> Dimension;

/// For the two hole-free polygons over the rings `a` and `b`: the dimension
/// of the intersection of their interiors, and of their boundaries.
pub uninterp spec fn ring_pair_relate(a: Seq<Coord>, b: Seq<Coord>) -> (Dimension, Dimension);

/// For two polygons with holes: the dimension of the intersection of their
/// interiors, and of their boundaries.
pub uninterp spec fn polygon_pair_relate(
    a_exterior: Seq<Coord>,
    a_interiors: Seq<Seq<Coord>>,
    b_exterior: Seq<Coord>,
    b_interiors: Seq<Seq<Coord>>,
) -> (Dimension, Dimension);

/// Whether the three coordinates are collinear, up to the fixed tolerance of
/// the determinant test.
pub uninterp spec fn collinear_coords(p0: Coord, p1: Coord, p2: Coord) -> bool;

/// Relies on `geo`'s `Intersects` for `Line` against `Line`: whether the two
/// closed segments share at least one point. The test is built on the exact
/// `robust` orientation predicate, so the answer is a function of the
/// coordinate bits alone.
#[verifier::external_body]
pub fn segments_intersect(a0: &Coord, a1: &Coord, b0: &Coord, b1: &Coord) -> (r: bool)
    ensures
        r == segs_intersect(*a0, *a1, *b0, *b1),
{
    let coord = |c: &Coord| GeoCoord { x: Double::from_bits(c.x), y: Double::from_bits(c.y) };
    let a = GeoLine::new(coord(a0), coord(a1));
    a.intersects(&GeoLine::new(coord(b0), coord(b1)))
}

/// Relies on `geo`'s `Contains` of a `LineString` in a `Polygon` (which geo
/// answers through `Relate`): whether the hole-free polygon over `hull`
/// contains `ring`, boundary touches included.
#[verifier::external_body]
pub fn hull_contains(hull: &LineString, ring: &LineString) -> (r: bool)
    requires
        all_finite(hull@),
        all_finite(ring@),
    ensures
        r == hull_contains_ring(hull@, ring@),
{
    let to_ring = |r: &LineString| GeoLineString(
        r.0.iter().map(|c| GeoCoord { x: Double::from_bits(c.x), y: Double::from_bits(c.y) }).collect(),
    );
    GeoPolygon::new(to_ring(hull), vec![]).contains(&to_ring(ring))
}

/// Relies on `geo`'s `Relate` between a hole-free `Polygon` and a
/// `LineString`: the matrix entry at (boundary of the polygon, interior of
/// the line).
#[verifier::external_body]
pub fn hull_ring_relate_boundary_inside(hull: &LineString, ring: &LineString) -> (r: Dimension)
    requires
        all_finite(hull@),
        all_finite(ring@),
    ensures
        r == hull_ring_boundary_inside(hull@, ring@),
{
    let to_ring = |r: &LineString| GeoLineString(
        r.0.iter().map(|c| GeoCoord { x: Double::from_bits(c.x), y: Double::from_bits(c.y) }).collect(),
    );
    let shell = GeoPolygon::new(to_ring(hull), vec![]);
    match shell.relate(&to_ring(ring)).get(CoordPos::OnBoundary, CoordPos::Inside) {
        GeoDimensions::Empty => Dimension::Empty,
        GeoDimensions::ZeroDimensional => Dimension::ZeroDimensional,
        GeoDimensions::OneDimensional => Dimension::OneDimensional,
        GeoDimensions::TwoDimensional => Dimension::TwoDimensional,
    }
}

/// Relies on `geo`'s `Relate` between the two hole-free polygons over `a`
/// and `b`: the matrix entries at (interior, interior) and at (boundary,
/// boundary).
#[verifier::external_body]
pub fn rings_relate(a: &LineString, b: &LineString) -> (r: (Dimension, Dimension))
    requires
        all_finite(a@),
        all_finite(b@),
    ensures
        r == ring_pair_relate(a@, b@),
{
    let to_ring = |r: &LineString| GeoLineString(
        r.0.iter().map(|c| GeoCoord { x: Double::from_bits(c.x), y: Double::from_bits(c.y) }).collect(),
    );
    let dim = |d: GeoDimensions| match d {
        GeoDimensions::Empty => Dimension::Empty,
        GeoDimensions::ZeroDimensional => Dimension::ZeroDimensional,
        GeoDimensions::OneDimensional => Dimension::OneDimensional,
        GeoDimensions::TwoDimensional => Dimension::TwoDimensional,
    };
    let im = GeoPolygon::new(to_ring(a), vec![]).relate(&GeoPolygon::new(to_ring(b), vec![]));
    (dim(im.get(CoordPos::Inside, CoordPos::Inside)), dim(im.get(CoordPos::OnBoundary, CoordPos::OnBoundary)))
}

/// Relies on `geo`'s `Relate` between two polygons with holes: the matrix
/// entries at (interior, interior) and at (boundary, boundary).
#[verifier::external_body]
pub fn polygons_relate(
    a_exterior: &LineString,
    a_interiors: &Vec<LineString>,
    b_exterior: &LineString,
    b_interiors: &Vec<LineString>,
) -> (r: (Dimension, Dimension))
    requires
        all_finite(a_exterior@),
        forall|i: int| 0 <= i < a_interiors@.len() ==> all_finite(#[trigger] a_interiors@[i]@),
        all_finite(b_exterior@),
        forall|i: int| 0 <= i < b_interiors@.len() ==> all_finite(#[trigger] b_interiors@[i]@),
    ensures
        r == polygon_pair_relate(
            a_exterior@,
            rings_view(a_interiors@),
            b_exterior@,
            rings_view(b_interiors@),
        ),
{
    let to_ring = |r: &LineString| GeoLineString(
        r.0.iter().map(|c| GeoCoord { x: Double::from_bits(c.x), y: Double::from_bits(c.y) }).collect(),
    );
    let dim = |d: GeoDimensions| match d {
        GeoDimensions::Empty => Dimension::Empty,
        GeoDimensions::ZeroDimensional => Dimension::ZeroDimensional,
        GeoDimensions::OneDimensional => Dimension::OneDimensional,
        GeoDimensions::TwoDimensional => Dimension::TwoDimensional,
    };
    let pa = GeoPolygon::new(to_ring(a_exterior), a_interiors.iter().map(to_ring).collect());
    let im = pa.relate(&GeoPolygon::new(to_ring(b_exterior), b_interiors.iter().map(to_ring).collect()));
    (dim(im.get(CoordPos::Inside, CoordPos::Inside)), dim(im.get(CoordPos::OnBoundary, CoordPos::OnBoundary)))
}

/// Relies on the processor's IEEE-754 double arithmetic: whether the
/// determinant `(p1 - p0) x (p2 - p0)` is, in absolute value, below the
/// fixed tolerance `1.0e-10` (given here by its bit pattern). Each operation
/// is exactly specified by IEEE-754, and a NaN determinant compares false,
/// so the answer is a function of the coordinate bits alone.
#[verifier::external_body]
pub fn check_points_are_collinear(p0: &Coord, p1: &Coord, p2: &Coord) -> (r: bool)
    ensures
        r == collinear_coords(*p0, *p1, *p2),
{
    let a = Double::from_bits(p1.x) - Double::from_bits(p0.x);
    let b = Double::from_bits(p1.y) - Double::from_bits(p0.y);
    let c = Double::from_bits(p2.x) - Double::from_bits(p0.x);
    let d = Double::from_bits(p2.y) - Double::from_bits(p0.y);
    let det = a * d - b * c;
    det.abs() < Double::from_bits(0x3ddb_7cdf_d9d7_bdbb)
}

} // verus!
