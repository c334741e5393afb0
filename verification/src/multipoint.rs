//! Multi-points: collections of points. A multi-point is valid when every
//! member point carries finite numbers.

use crate::coord::coord_finite;
use crate::point::Point;
use crate::utils::check_coord_is_not_finite;
use crate::{GeometryPosition, Problem, ProblemAtPosition, ProblemPosition, Valid};
use vstd::prelude::*;

verus! {

/// An ordered collection of points.
#[derive(Debug, Clone)]
pub struct MultiPoint(pub Vec<Point>);

/// One `NotFinite` finding for each point with a NaN or infinite
/// coordinate, in order, each at the point's index.
pub open spec fn multipoint_problems(points: Seq<Point>) -> Seq<ProblemAtPosition>
    decreases points.len(),
{
    if points.len() == 0 {
        Seq::empty()
    } else {
        multipoint_problems(points.drop_last()) + if coord_finite(
            points[points.len() - 1].0,
        ) {
            Seq::<ProblemAtPosition>::empty()
        } else {
            seq![
                ProblemAtPosition(
                    Problem::NotFinite,
                    ProblemPosition::MultiPoint(GeometryPosition((points.len() - 1) as usize)),
                ),
            ]
        }
    }
}

/// Every point of the sequence is finite.
pub open spec fn all_points_finite(points: Seq<Point>) -> bool {
    forall|i: int| 0 <= i < points.len() ==> coord_finite(#[trigger] points[i].0)
}

/// There are no findings exactly when every point is finite.
pub proof fn lemma_multipoint_problems_all_finite(points: Seq<Point>)
    ensures
        multipoint_problems(points).len() == 0 <==> all_points_finite(points),
    decreases points.len(),
{
    if points.len() > 0 {
        lemma_multipoint_problems_all_finite(points.drop_last());
        if all_points_finite(points) {
            assert(all_points_finite(points.drop_last())) by {
                assert(forall|i: int|
                    0 <= i < points.len() - 1 ==> points.drop_last()[i] == #[trigger] points[i]);
            }
        }
        if multipoint_problems(points).len() == 0 {
            assert(forall|i: int|
                0 <= i < points.len() - 1 ==> #[trigger] points[i] == points.drop_last()[i]);
        }
    }
}

impl Valid for MultiPoint {
    open spec fn spec_problems(&self) -> Seq<ProblemAtPosition> {
        multipoint_problems(self.0@)
    }

    open spec fn spec_valid(&self) -> bool {
        all_points_finite(self.0@)
    }

    proof fn valid_iff_no_problems(&self) {
        lemma_multipoint_problems_all_finite(self.0@);
    }

    fn is_valid(&self) -> (valid: bool) {
        let n = self.0.len();
        let mut i: usize = 0;
        while i < n
            invariant
                0 <= i <= n,
                n == self.0@.len(),
                forall|k: int| 0 <= k < i ==> coord_finite(#[trigger] self.0@[k].0),
            decreases n - i,
        {
            if !self.0[i].is_valid() {
                return false;
            }
            i = i + 1;
        }
        true
    }

    fn explain_invalidity(&self) -> (report: Option<Vec<ProblemAtPosition>>) {
        let mut reason: Vec<ProblemAtPosition> = Vec::new();
        let n = self.0.len();
        let mut i: usize = 0;
        proof {
            assert(self.0@.subrange(0, 0) =~= Seq::<Point>::empty());
        }
        while i < n
            invariant
                0 <= i <= n,
                n == self.0@.len(),
                reason@ == multipoint_problems(self.0@.subrange(0, i as int)),
            decreases n - i,
        {
            proof {
                let s = self.0@;
                assert(s.subrange(0, i + 1).drop_last() =~= s.subrange(0, i as int));
                assert(s.subrange(0, i + 1)[i as int] == s[i as int]);
            }
            if check_coord_is_not_finite(&self.0[i].0) {
                reason.push(
                    ProblemAtPosition(
                        Problem::NotFinite,
                        ProblemPosition::MultiPoint(GeometryPosition(i)),
                    ),
                );
            }
            i = i + 1;
        }
        proof {
            assert(self.0@.subrange(0, n as int) =~= self.0@);
        }
        if reason.len() == 0 {
            None
        } else {
            Some(reason)
        }
    }
}

} // verus!
