//! Line strings: open chains of coordinates.
//!
//! A line string is valid when it keeps at least two points after dropping
//! consecutive duplicate coordinates, and every coordinate is finite.

use crate::coord::{Coord, all_finite, coord_eq, coord_finite};
use crate::utils::{RawProblem, check_too_few_points, distinct_count};
use crate::{CoordinatePosition, Problem, ProblemAtPosition, ProblemPosition, Valid};
use vstd::prelude::*;

verus! {

/// An ordered chain of coordinates.
#[derive(Debug, Clone)]
pub struct LineString(pub Vec<Coord>);

impl View for LineString {
    type V = Seq<Coord>;

    open spec fn view(&self) -> Seq<Coord> {
        self.0@
    }
}

/// The coordinate sequences of a sequence of line strings.
pub open spec fn rings_view(rings: Seq<LineString>) -> Seq<Seq<Coord>> {
    rings.map_values(|ls: LineString| ls@)
}

/// What closing a ring yields: the sequence itself when it is empty or
/// already ends on its first coordinate, otherwise the sequence with the
/// first coordinate appended.
pub open spec fn ring_close(s: Seq<Coord>) -> Seq<Coord> {
    if s.len() == 0 || coord_eq(s[0], s[s.len() - 1]) {
        s
    } else {
        s.push(s[0])
    }
}

impl LineString {
    /// Close the chain into a ring: append the first coordinate unless the
    /// chain is empty or already ends on it.
    pub fn close(&mut self)
        ensures
            final(self)@ == ring_close(old(self)@),
    {
        let n = self.0.len();
        if n > 0 {
            let first = self.0[0];
            let last = self.0[n - 1];
            if !crate::coord::coords_equal(&first, &last) {
                self.0.push(first);
            }
        }
    }
}

/// One `NotFinite` finding for each NaN or infinite coordinate of `s`, in
/// coordinate order, each at its coordinate index.
pub open spec fn nonfinite_raw(s: Seq<Coord>) -> Seq<RawProblem>
    decreases s.len(),
{
    if s.len() == 0 {
        Seq::empty()
    } else {
        nonfinite_raw(s.drop_last()) + if coord_finite(s[s.len() - 1]) {
            Seq::<RawProblem>::empty()
        } else {
            seq![(Problem::NotFinite, CoordinatePosition(Some((s.len() - 1) as usize)))]
        }
    }
}

/// There are no `NotFinite` findings exactly when every coordinate is
/// finite.
pub proof fn lemma_nonfinite_raw_all_finite(s: Seq<Coord>)
    ensures
        nonfinite_raw(s).len() == 0 <==> all_finite(s),
    decreases s.len(),
{
    if s.len() == 0 {
    } else {
        lemma_nonfinite_raw_all_finite(s.drop_last());
        if all_finite(s) {
            assert(all_finite(s.drop_last())) by {
                assert(forall|i: int|
                    0 <= i < s.len() - 1 ==> s.drop_last()[i] == #[trigger] s[i]);
            }
        }
        if nonfinite_raw(s).len() == 0 {
            assert(all_finite(s.drop_last()) && coord_finite(s[s.len() - 1]));
            assert(forall|i: int|
                0 <= i < s.len() - 1 ==> #[trigger] s[i] == s.drop_last()[i]);
        }
    }
}

/// Append one `NotFinite` finding for each NaN or infinite coordinate.
pub fn collect_nonfinite_problems(coords: &Vec<Coord>, reason: &mut Vec<RawProblem>)
    ensures
        final(reason)@ == old(reason)@ + nonfinite_raw(coords@),
{
    let n = coords.len();
    let mut i: usize = 0;
    proof {
        assert(coords@.subrange(0, 0) =~= Seq::<Coord>::empty());
        assert(reason@ =~= reason@ + nonfinite_raw(coords@.subrange(0, 0)));
    }
    while i < n
        invariant
            0 <= i <= n,
            n == coords@.len(),
            reason@ == old(reason)@ + nonfinite_raw(coords@.subrange(0, i as int)),
        decreases n - i,
    {
        proof {
            let s = coords@;
            assert(s.subrange(0, i + 1).drop_last() =~= s.subrange(0, i as int));
            assert(s.subrange(0, i + 1)[i as int] == s[i as int]);
        }
        if crate::utils::check_coord_is_not_finite(&coords[i]) {
            reason.push((Problem::NotFinite, CoordinatePosition(Some(i))));
        }
        i = i + 1;
    }
    proof {
        assert(coords@.subrange(0, n as int) =~= coords@);
    }
}

/// The findings of an open line string: `TooFewPoints` for the whole line
/// when fewer than two distinct points remain, then one `NotFinite` per bad
/// coordinate.
pub open spec fn linestring_raw(s: Seq<Coord>) -> Seq<RawProblem> {
    (if distinct_count(s) < 2 {
        seq![(Problem::TooFewPoints, CoordinatePosition(None))]
    } else {
        Seq::<RawProblem>::empty()
    }) + nonfinite_raw(s)
}

/// The findings of an open line string, as plain data.
pub fn linestring_raw_problems(ls: &LineString) -> (r: Vec<RawProblem>)
    ensures
        r@ == linestring_raw(ls@),
{
    let mut reason: Vec<RawProblem> = Vec::new();
    if check_too_few_points(ls, false) {
        reason.push((Problem::TooFewPoints, CoordinatePosition(None)));
    }
    collect_nonfinite_problems(&ls.0, &mut reason);
    reason
}

/// An open line string has no findings exactly when it keeps at least two
/// distinct points and every coordinate is finite.
pub proof fn lemma_linestring_raw_empty(s: Seq<Coord>)
    ensures
        linestring_raw(s).len() == 0 <==> (distinct_count(s) >= 2 && all_finite(s)),
{
    lemma_nonfinite_raw_all_finite(s);
}

/// The findings of a line string, each at its place inside the line.
pub open spec fn linestring_problems(s: Seq<Coord>) -> Seq<ProblemAtPosition> {
    linestring_raw(s).map_values(
        |rp: RawProblem| ProblemAtPosition(rp.0, ProblemPosition::LineString(rp.1)),
    )
}

impl Valid for LineString {
    open spec fn spec_problems(&self) -> Seq<ProblemAtPosition> {
        linestring_problems(self@)
    }

    open spec fn spec_valid(&self) -> bool {
        distinct_count(self@) >= 2 && all_finite(self@)
    }

    proof fn valid_iff_no_problems(&self) {
        lemma_linestring_raw_empty(self@);
    }

    fn is_valid(&self) -> (valid: bool) {
        if check_too_few_points(self, false) {
            return false;
        }
        let n = self.0.len();
        let mut i: usize = 0;
        while i < n
            invariant
                0 <= i <= n,
                n == self@.len(),
                forall|k: int| 0 <= k < i ==> coord_finite(#[trigger] self@[k]),
            decreases n - i,
        {
            if !crate::coord::coord_is_finite(&self.0[i]) {
                return false;
            }
            i = i + 1;
        }
        true
    }

    fn explain_invalidity(&self) -> (report: Option<Vec<ProblemAtPosition>>) {
        let raw = linestring_raw_problems(self);
        if raw.len() == 0 {
            return None;
        }
        let mut reason: Vec<ProblemAtPosition> = Vec::new();
        let n = raw.len();
        let mut i: usize = 0;
        while i < n
            invariant
                0 <= i <= n,
                n == raw@.len(),
                raw@ == linestring_raw(self@),
                reason@ =~= raw@.subrange(0, i as int).map_values(
                    |rp: RawProblem| ProblemAtPosition(rp.0, ProblemPosition::LineString(rp.1)),
                ),
            decreases n - i,
        {
            let (problem, position) = raw[i];
            reason.push(ProblemAtPosition(problem, ProblemPosition::LineString(position)));
            proof {
                assert(raw@.subrange(0, i + 1).drop_last() =~= raw@.subrange(0, i as int));
                assert(raw@.subrange(0, i + 1)[i as int] == raw@[i as int]);
                assert(reason@ =~= raw@.subrange(0, i + 1).map_values(
                    |rp: RawProblem| ProblemAtPosition(rp.0, ProblemPosition::LineString(rp.1)),
                ));
            }
            i = i + 1;
        }
        proof {
            assert(raw@.subrange(0, n as int) =~= raw@);
        }
        Some(reason)
    }
}

} // verus!
