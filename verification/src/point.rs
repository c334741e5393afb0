//! Points. A point has no topological constraint; it is checked to carry
//! finite numbers, like the bare coordinate it wraps.

use crate::coord::{Coord, coord_finite, coord_problems};
use crate::{ProblemAtPosition, Valid};
use vstd::prelude::*;

verus! {

/// A single location: one coordinate.
#[derive(Debug, Clone, Copy)]
pub struct Point(pub Coord);

impl Point {
    /// A point from the bit patterns of its two components.
    pub fn new(x: u64, y: u64) -> (p: Point)
        ensures
            p.0.x == x,
            p.0.y == y,
    {
        Point(Coord::new(x, y))
    }
}

impl Valid for Point {
    open spec fn spec_problems(&self) -> Seq<ProblemAtPosition> {
        coord_problems(self.0)
    }

    open spec fn spec_valid(&self) -> bool {
        coord_finite(self.0)
    }

    proof fn valid_iff_no_problems(&self) {
    }

    fn is_valid(&self) -> (valid: bool) {
        self.0.is_valid()
    }

    fn explain_invalidity(&self) -> (report: Option<Vec<ProblemAtPosition>>) {
        self.0.explain_invalidity()
    }
}

} // verus!
