//! Triangles. The three vertices must be finite, pairwise distinct, and not
//! collinear (up to the fixed tolerance of the collinearity predicate).

use crate::coord::{Coord, coord_eq, coord_finite, coord_is_finite, coords_equal};
use crate::predicates::{check_points_are_collinear, collinear_coords};
use crate::{CoordinatePosition, Problem, ProblemAtPosition, ProblemPosition, Valid};
use vstd::prelude::*;

verus! {

/// A triangle: three vertices.
#[derive(Debug, Clone, Copy)]
pub struct Triangle(pub Coord, pub Coord, pub Coord);

/// The findings of a triangle: `NotFinite` per bad vertex, then
/// `IdenticalCoords` for coinciding vertices, then `CollinearCoords` for
/// the triangle as a whole when the vertices are collinear.
pub open spec fn triangle_problems(t: Triangle) -> Seq<ProblemAtPosition> {
    (if coord_finite(t.0) {
        Seq::<ProblemAtPosition>::empty()
    } else {
        seq![
            ProblemAtPosition(
                Problem::NotFinite,
                ProblemPosition::Triangle(CoordinatePosition(Some(0))),
            ),
        ]
    }) + (if coord_finite(t.1) {
        Seq::<ProblemAtPosition>::empty()
    } else {
        seq![
            ProblemAtPosition(
                Problem::NotFinite,
                ProblemPosition::Triangle(CoordinatePosition(Some(1))),
            ),
        ]
    }) + (if coord_finite(t.2) {
        Seq::<ProblemAtPosition>::empty()
    } else {
        seq![
            ProblemAtPosition(
                Problem::NotFinite,
                ProblemPosition::Triangle(CoordinatePosition(Some(2))),
            ),
        ]
    }) + (if coord_eq(t.0, t.1) || coord_eq(t.0, t.2) {
        seq![
            ProblemAtPosition(
                Problem::IdenticalCoords,
                ProblemPosition::Triangle(CoordinatePosition(Some(0))),
            ),
        ]
    } else {
        Seq::<ProblemAtPosition>::empty()
    }) + (if coord_eq(t.1, t.2) {
        seq![
            ProblemAtPosition(
                Problem::IdenticalCoords,
                ProblemPosition::Triangle(CoordinatePosition(Some(1))),
            ),
        ]
    } else {
        Seq::<ProblemAtPosition>::empty()
    }) + (if collinear_coords(t.0, t.1, t.2) {
        seq![
            ProblemAtPosition(
                Problem::CollinearCoords,
                ProblemPosition::Triangle(CoordinatePosition(None)),
            ),
        ]
    } else {
        Seq::<ProblemAtPosition>::empty()
    })
}

impl Valid for Triangle {
    open spec fn spec_problems(&self) -> Seq<ProblemAtPosition> {
        triangle_problems(*self)
    }

    open spec fn spec_valid(&self) -> bool {
        &&& coord_finite(self.0)
        &&& coord_finite(self.1)
        &&& coord_finite(self.2)
        &&& !coord_eq(self.0, self.1)
        &&& !coord_eq(self.1, self.2)
        &&& !coord_eq(self.2, self.0)
        &&& !collinear_coords(self.0, self.1, self.2)
    }

    proof fn valid_iff_no_problems(&self) {
    }

    fn is_valid(&self) -> (valid: bool) {
        if !coord_is_finite(&self.0) || !coord_is_finite(&self.1) || !coord_is_finite(&self.2) {
            return false;
        }
        if coords_equal(&self.0, &self.1) || coords_equal(&self.1, &self.2) || coords_equal(
            &self.2,
            &self.0,
        ) {
            return false;
        }
        if check_points_are_collinear(&self.0, &self.1, &self.2) {
            return false;
        }
        true
    }

    fn explain_invalidity(&self) -> (report: Option<Vec<ProblemAtPosition>>) {
        let mut reason: Vec<ProblemAtPosition> = Vec::new();
        if !coord_is_finite(&self.0) {
            reason.push(
                ProblemAtPosition(
                    Problem::NotFinite,
                    ProblemPosition::Triangle(CoordinatePosition(Some(0))),
                ),
            );
        }
        if !coord_is_finite(&self.1) {
            reason.push(
                ProblemAtPosition(
                    Problem::NotFinite,
                    ProblemPosition::Triangle(CoordinatePosition(Some(1))),
                ),
            );
        }
        if !coord_is_finite(&self.2) {
            reason.push(
                ProblemAtPosition(
                    Problem::NotFinite,
                    ProblemPosition::Triangle(CoordinatePosition(Some(2))),
                ),
            );
        }
        if coords_equal(&self.0, &self.1) || coords_equal(&self.0, &self.2) {
            reason.push(
                ProblemAtPosition(
                    Problem::IdenticalCoords,
                    ProblemPosition::Triangle(CoordinatePosition(Some(0))),
                ),
            );
        }
        if coords_equal(&self.1, &self.2) {
            reason.push(
                ProblemAtPosition(
                    Problem::IdenticalCoords,
                    ProblemPosition::Triangle(CoordinatePosition(Some(1))),
                ),
            );
        }
        if check_points_are_collinear(&self.0, &self.1, &self.2) {
            reason.push(
                ProblemAtPosition(
                    Problem::CollinearCoords,
                    ProblemPosition::Triangle(CoordinatePosition(None)),
                ),
            );
        }
        proof {
            assert(reason@ =~= triangle_problems(*self));
        }
        if reason.len() == 0 {
            None
        } else {
            Some(reason)
        }
    }
}

} // verus!
