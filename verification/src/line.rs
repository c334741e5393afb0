//! Lines: single segments between two coordinates. A line is valid when
//! both ends are finite and distinct.

use crate::coord::{Coord, coord_eq, coord_finite, coord_is_finite, coords_equal};
use crate::{CoordinatePosition, Problem, ProblemAtPosition, ProblemPosition, Valid};
use vstd::prelude::*;

verus! {

/// A segment between two coordinates.
#[derive(Debug, Clone, Copy)]
pub struct Line {
    pub start: Coord,
    pub end: Coord,
}

impl Line {
    pub fn new(start: Coord, end: Coord) -> (l: Line)
        ensures
            l.start == start,
            l.end == end,
    {
        Line { start, end }
    }
}

/// The findings of a line: `NotFinite` for each bad end, then
/// `IdenticalCoords` when the two ends are numerically equal.
pub open spec fn line_problems(l: Line) -> Seq<ProblemAtPosition> {
    (if coord_finite(l.start) {
        Seq::<ProblemAtPosition>::empty()
    } else {
        seq![
            ProblemAtPosition(
                Problem::NotFinite,
                ProblemPosition::Line(CoordinatePosition(Some(0))),
            ),
        ]
    }) + (if coord_finite(l.end) {
        Seq::<ProblemAtPosition>::empty()
    } else {
        seq![
            ProblemAtPosition(
                Problem::NotFinite,
                ProblemPosition::Line(CoordinatePosition(Some(1))),
            ),
        ]
    }) + (if coord_eq(l.start, l.end) {
        seq![
            ProblemAtPosition(
                Problem::IdenticalCoords,
                ProblemPosition::Line(CoordinatePosition(Some(0))),
            ),
        ]
    } else {
        Seq::<ProblemAtPosition>::empty()
    })
}

impl Valid for Line {
    open spec fn spec_problems(&self) -> Seq<ProblemAtPosition> {
        line_problems(*self)
    }

    open spec fn spec_valid(&self) -> bool {
        coord_finite(self.start) && coord_finite(self.end) && !coord_eq(self.start, self.end)
    }

    proof fn valid_iff_no_problems(&self) {
    }

    fn is_valid(&self) -> (valid: bool) {
        if !coord_is_finite(&self.start) || !coord_is_finite(&self.end) {
            return false;
        }
        if coords_equal(&self.start, &self.end) {
            return false;
        }
        true
    }

    fn explain_invalidity(&self) -> (report: Option<Vec<ProblemAtPosition>>) {
        let mut reason: Vec<ProblemAtPosition> = Vec::new();
        if !coord_is_finite(&self.start) {
            reason.push(
                ProblemAtPosition(
                    Problem::NotFinite,
                    ProblemPosition::Line(CoordinatePosition(Some(0))),
                ),
            );
        }
        if !coord_is_finite(&self.end) {
            reason.push(
                ProblemAtPosition(
                    Problem::NotFinite,
                    ProblemPosition::Line(CoordinatePosition(Some(1))),
                ),
            );
        }
        if coords_equal(&self.start, &self.end) {
            reason.push(
                ProblemAtPosition(
                    Problem::IdenticalCoords,
                    ProblemPosition::Line(CoordinatePosition(Some(0))),
                ),
            );
        }
        proof {
            assert(reason@ =~= line_problems(*self));
        }
        if reason.len() == 0 {
            None
        } else {
            Some(reason)
        }
    }
}

} // verus!
