use vstd::prelude::*;

use crate::matcher::{LeafModel, Matcher};
use crate::regex::Match;

verus! {

/// A matcher that accepts one given, exact text.
pub struct Str {
    string: String,
}

impl Str {
    /// The text this matcher accepts.
    pub closed spec fn text(&self) -> Seq<char> {
        self.string@
    }

    /// A matcher for exactly `string`.
    pub fn new(string: &str) -> (r: Str)
        ensures
            r.text() == string@,
    {
        Str { string: String::from_str(string) }
    }
}

impl Matcher for Str {
    open spec fn model(&self) -> LeafModel {
        LeafModel::Literal(self.text())
    }

    fn matches(&self, string: String) -> (r: bool) {
        string == self.string
    }

    fn checked_string_length(&self) -> (r: usize) {
        self.string.as_str().unicode_len()
    }

    fn into_match(self) -> (r: Match) {
        Match::Literal(self)
    }
}

} // verus!
