use vstd::prelude::*;

use crate::matcher::{LeafModel, Matcher};
use crate::regex::Match;

verus! {

/// A matcher that accepts any single character.
pub struct Any;

impl Matcher for Any {
    open spec fn model(&self) -> LeafModel {
        LeafModel::Wildcard
    }

    fn matches(&self, _string: String) -> (r: bool) {
        true
    }

    fn checked_string_length(&self) -> (r: usize) {
        1
    }

    fn into_match(self) -> (r: Match) {
        Match::Any(self)
    }
}

} // verus!
