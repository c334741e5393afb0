//! Multi-line-strings: collections of line strings. A multi-line-string is
//! valid when all its members are; each member's findings are re-labelled
//! with the member's index.

use crate::coord::Coord;
use crate::linestring::{
    LineString, lemma_linestring_raw_empty, linestring_raw, linestring_raw_problems,
};
use crate::utils::RawProblem;
use crate::{GeometryPosition, ProblemAtPosition, ProblemPosition, Valid};
use vstd::prelude::*;

verus! {

/// An ordered collection of line strings.
#[derive(Debug, Clone)]
pub struct MultiLineString(pub Vec<LineString>);

/// The findings of member `j`, re-labelled with the member's index.
pub open spec fn mls_member_problems(s: Seq<Coord>, j: int) -> Seq<ProblemAtPosition> {
    linestring_raw(s).map_values(
        |rp: RawProblem|
            ProblemAtPosition(
                rp.0,
                ProblemPosition::MultiLineString(GeometryPosition(j as usize), rp.1),
            ),
    )
}

/// The findings of all members, in member order.
pub open spec fn multilinestring_problems(lines: Seq<LineString>) -> Seq<ProblemAtPosition>
    decreases lines.len(),
{
    if lines.len() == 0 {
        Seq::empty()
    } else {
        multilinestring_problems(lines.drop_last()) + mls_member_problems(
            lines[lines.len() - 1]@,
            lines.len() - 1,
        )
    }
}

/// There are no findings exactly when every member line string is valid.
pub proof fn lemma_multilinestring_problems_empty(lines: Seq<LineString>)
    ensures
        multilinestring_problems(lines).len() == 0 <==> (forall|j: int|
            0 <= j < lines.len() ==> linestring_raw(#[trigger] lines[j]@).len() == 0),
    decreases lines.len(),
{
    if lines.len() > 0 {
        lemma_multilinestring_problems_empty(lines.drop_last());
        assert(forall|j: int|
            0 <= j < lines.len() - 1 ==> lines.drop_last()[j] == #[trigger] lines[j]);
    }
}

impl Valid for MultiLineString {
    open spec fn spec_problems(&self) -> Seq<ProblemAtPosition> {
        multilinestring_problems(self.0@)
    }

    open spec fn spec_valid(&self) -> bool {
        forall|j: int| 0 <= j < self.0@.len() ==> (#[trigger] self.0@[j]).spec_valid()
    }

    proof fn valid_iff_no_problems(&self) {
        lemma_multilinestring_problems_empty(self.0@);
        assert forall|j: int| 0 <= j < self.0@.len() implies ((#[trigger] self.0@[j]).spec_valid()
            <==> linestring_raw(self.0@[j]@).len() == 0) by {
            lemma_linestring_raw_empty(self.0@[j]@);
        }
    }

    fn is_valid(&self) -> (valid: bool) {
        let n = self.0.len();
        let mut j: usize = 0;
        while j < n
            invariant
                0 <= j <= n,
                n == self.0@.len(),
                forall|k: int| 0 <= k < j ==> (#[trigger] self.0@[k]).spec_valid(),
            decreases n - j,
        {
            if !self.0[j].is_valid() {
                return false;
            }
            j = j + 1;
        }
        true
    }

    fn explain_invalidity(&self) -> (report: Option<Vec<ProblemAtPosition>>) {
        let mut reason: Vec<ProblemAtPosition> = Vec::new();
        let n = self.0.len();
        let mut j: usize = 0;
        proof {
            assert(self.0@.subrange(0, 0) =~= Seq::<LineString>::empty());
        }
        while j < n
            invariant
                0 <= j <= n,
                n == self.0@.len(),
                reason@ == multilinestring_problems(self.0@.subrange(0, j as int)),
            decreases n - j,
        {
            let raw = linestring_raw_problems(&self.0[j]);
            let m = raw.len();
            let mut k: usize = 0;
            let ghost before = reason@;
            while k < m
                invariant
                    0 <= k <= m,
                    m == raw@.len(),
                    raw@ == linestring_raw(self.0@[j as int]@),
                    j < n == self.0@.len(),
                    reason@ =~= before + raw@.subrange(0, k as int).map_values(
                        |rp: RawProblem|
                            ProblemAtPosition(
                                rp.0,
                                ProblemPosition::MultiLineString(GeometryPosition(j), rp.1),
                            ),
                    ),
                decreases m - k,
            {
                let (problem, position) = raw[k];
                reason.push(
                    ProblemAtPosition(
                        problem,
                        ProblemPosition::MultiLineString(GeometryPosition(j), position),
                    ),
                );
                proof {
                    assert(raw@.subrange(0, k + 1).drop_last() =~= raw@.subrange(0, k as int));
                    assert(raw@.subrange(0, k + 1)[k as int] == raw@[k as int]);
                }
                k = k + 1;
            }
            proof {
                assert(raw@.subrange(0, m as int) =~= raw@);
                assert(self.0@.subrange(0, j + 1).drop_last() =~= self.0@.subrange(0, j as int));
                assert(self.0@.subrange(0, j + 1)[j as int] == self.0@[j as int]);
                assert(reason@ =~= multilinestring_problems(self.0@.subrange(0, j + 1)));
            }
            j = j + 1;
        }
        proof {
            assert(self.0@.subrange(0, n as int) =~= self.0@);
        }
        if reason.len() == 0 {
            None
        } else {
            Some(reason)
        }
    }
}

} // verus!
