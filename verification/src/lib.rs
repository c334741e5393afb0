//! Validity checking for planar vector geometries, after the OGC
//! Simple-Features rules: every geometry answers whether it is valid, and an
//! invalid one explains itself with a list of findings, each a problem kind
//! together with a position that locates it inside the (possibly nested)
//! geometry.
//!
//! Coordinates are carried as the bit patterns of IEEE-754 double-precision
//! numbers, so that equality, finiteness and the validity rules can be stated
//! and proved over plain integers; the geometric predicates (segment
//! intersection, containment, the DE-9IM relate matrix) are supplied by the
//! `geo` crate behind a small trusted boundary in `predicates`.

use vstd::prelude::*;

pub mod coord;
pub mod geometry;
pub mod geometrycollection;
pub mod laws;
pub mod line;
pub mod linestring;
pub mod multilinestring;
pub mod multipoint;
pub mod multipolygon;
pub mod point;
pub mod polygon;
pub mod predicates;
pub mod rect;
pub mod triangle;
pub mod utils;

verus! {

/// The role of a ring in a polygon.
#[derive(Debug, PartialEq, Eq, Clone, Copy)]
pub enum RingRole {
    Exterior,
    Interior(usize),
}

/// The position of an element within a multi-geometry or a collection.
#[derive(Debug, PartialEq, Eq, Clone, Copy)]
pub struct GeometryPosition(pub usize);

/// The coordinate a problem concerns: either one coordinate of the element,
/// by zero-based index, or the element as a whole (`None`).
#[derive(Debug, PartialEq, Eq, Clone, Copy)]
pub struct CoordinatePosition(pub Option<usize>);

/// The position of a problem in a geometry. A collection wraps the position
/// of the offending member, so a problem is located at arbitrary nesting
/// depth.
#[derive(Debug, PartialEq, Eq)]
pub enum ProblemPosition {
    Point,
    Line(CoordinatePosition),
    Triangle(CoordinatePosition),
    Rect(CoordinatePosition),
    MultiPoint(GeometryPosition),
    LineString(CoordinatePosition),
    MultiLineString(GeometryPosition, CoordinatePosition),
    Polygon(RingRole, CoordinatePosition),
    MultiPolygon(GeometryPosition, RingRole, CoordinatePosition),
    GeometryCollection(GeometryPosition, Box<ProblemPosition>),
}

/// The kind of problem encountered.
#[derive(Debug, PartialEq, Eq, Clone, Copy)]
pub enum Problem {
    /// A coordinate is not finite (NaN or infinite)
    NotFinite,
    /// A LineString or a Polygon ring has too few points
    TooFewPoints,
    /// Identical coords
    IdenticalCoords,
    /// Collinear coords
    CollinearCoords,
    /// A ring has a self-intersection
    SelfIntersection,
    /// Two interior rings of a Polygon share a common line
    IntersectingRingsOnALine,
    /// Two interior rings of a Polygon share a common area
    IntersectingRingsOnAnArea,
    /// The interior ring of a Polygon is not contained in the exterior ring
    InteriorRingNotContainedInExteriorRing,
    /// Two Polygons of MultiPolygons overlap partially
    ElementsOverlaps,
    /// Two Polygons of MultiPolygons touch on a line
    ElementsTouchOnALine,
    /// Two Polygons of MultiPolygons are identical
    ElementsAreIdentical,
}

/// One finding: a problem, at a given position.
#[derive(Debug, PartialEq, Eq)]
pub struct ProblemAtPosition(pub Problem, pub ProblemPosition);

/// All the problems encountered when checking the validity of a geometry,
/// in discovery order.
#[derive(Debug, PartialEq, Eq)]
pub struct ProblemReport(pub Vec<ProblemAtPosition>);

/// Checking a geometry for validity and explaining what is wrong with it.
///
/// `spec_problems` is the mathematical model of the full list of findings,
/// and `spec_valid` the model of validity; `valid_iff_no_problems` obliges
/// every implementation to prove that a geometry is valid exactly when its
/// list of findings is empty.
pub trait Valid {
    /// The findings this geometry deserves, in discovery order.
    spec fn spec_problems(&self) -> Seq<ProblemAtPosition>;

    /// What it means for this geometry to be valid.
    spec fn spec_valid(&self) -> bool;

    /// A geometry is valid exactly when it has no problems.
    proof fn valid_iff_no_problems(&self)
        ensures
            self.spec_valid() <==> self.spec_problems().len() == 0,
    ;

    /// Check if the geometry is valid.
    fn is_valid(&self) -> (valid: bool)
        ensures
            valid == self.spec_valid(),
    ;

    /// Return the reason(s) of invalidity, or None if valid.
    fn explain_invalidity(&self) -> (report: Option<Vec<ProblemAtPosition>>)
        ensures
            (report is Some <==> self.spec_problems().len() != 0),
            (report matches Some(problems) ==> problems@ == self.spec_problems()),
    ;
}

} // verus!
