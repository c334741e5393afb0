//! Axis-aligned rectangles, given by two corner coordinates. A rectangle is
//! valid when both corners are finite.

use crate::coord::{Coord, coord_finite, coord_is_finite};
use crate::{CoordinatePosition, Problem, ProblemAtPosition, ProblemPosition, Valid};
use vstd::prelude::*;

verus! {

/// An axis-aligned rectangle, held by its minimum and maximum corners as
/// given by the caller.
#[derive(Debug, Clone, Copy)]
pub struct Rect {
    pub min: Coord,
    pub max: Coord,
}

impl Rect {
    pub fn new(min: Coord, max: Coord) -> (r: Rect)
        ensures
            r.min == min,
            r.max == max,
    {
        Rect { min, max }
    }

    pub fn min(&self) -> (c: Coord)
        ensures
            c == self.min,
    {
        self.min
    }

    pub fn max(&self) -> (c: Coord)
        ensures
            c == self.max,
    {
        self.max
    }
}

/// The findings of a rectangle: `NotFinite` for each bad corner.
pub open spec fn rect_problems(r: Rect) -> Seq<ProblemAtPosition> {
    (if coord_finite(r.min) {
        Seq::<ProblemAtPosition>::empty()
    } else {
        seq![
            ProblemAtPosition(
                Problem::NotFinite,
                ProblemPosition::Rect(CoordinatePosition(Some(0))),
            ),
        ]
    }) + (if coord_finite(r.max) {
        Seq::<ProblemAtPosition>::empty()
    } else {
        seq![
            ProblemAtPosition(
                Problem::NotFinite,
                ProblemPosition::Rect(CoordinatePosition(Some(1))),
            ),
        ]
    })
}

impl Valid for Rect {
    open spec fn spec_problems(&self) -> Seq<ProblemAtPosition> {
        rect_problems(*self)
    }

    open spec fn spec_valid(&self) -> bool {
        coord_finite(self.min) && coord_finite(self.max)
    }

    proof fn valid_iff_no_problems(&self) {
    }

    fn is_valid(&self) -> (valid: bool) {
        coord_is_finite(&self.min) && coord_is_finite(&self.max)
    }

    fn explain_invalidity(&self) -> (report: Option<Vec<ProblemAtPosition>>) {
        let mut reason: Vec<ProblemAtPosition> = Vec::new();
        if !coord_is_finite(&self.min) {
            reason.push(
                ProblemAtPosition(
                    Problem::NotFinite,
                    ProblemPosition::Rect(CoordinatePosition(Some(0))),
                ),
            );
        }
        if !coord_is_finite(&self.max) {
            reason.push(
                ProblemAtPosition(
                    Problem::NotFinite,
                    ProblemPosition::Rect(CoordinatePosition(Some(1))),
                ),
            );
        }
        proof {
            assert(reason@ =~= rect_problems(*self));
        }
        if reason.len() == 0 {
            None
        } else {
            Some(reason)
        }
    }
}

} // verus!
