//! Geometry collections: ordered collections of geometries of any kind,
//! nested collections included. A collection is valid when all its members
//! are; each member's findings are wrapped with the member's index.

use crate::geometry::{
    Geometry, collection_is_valid, collection_problem_list, collection_problems,
    collection_spec_valid, lemma_collection_valid_iff,
};
use crate::{ProblemAtPosition, Valid};
use vstd::prelude::*;

verus! {

/// An ordered collection of geometries of any kind.
#[derive(Debug)]
pub struct GeometryCollection(pub Vec<Geometry>);

impl Valid for GeometryCollection {
    open spec fn spec_problems(&self) -> Seq<ProblemAtPosition> {
        collection_problems(self.0@)
    }

    open spec fn spec_valid(&self) -> bool {
        collection_spec_valid(self.0@)
    }

    proof fn valid_iff_no_problems(&self) {
        lemma_collection_valid_iff(self.0@);
    }

    fn is_valid(&self) -> (valid: bool) {
        collection_is_valid(&self.0)
    }

    fn explain_invalidity(&self) -> (report: Option<Vec<ProblemAtPosition>>) {
        let reason = collection_problem_list(&self.0);
        if reason.len() == 0 {
            None
        } else {
            Some(reason)
        }
    }
}

} // verus!
