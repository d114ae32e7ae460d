use vstd::prelude::*;

use crate::regex::Match;

pub mod any;
pub mod string;
pub mod string_matcher;

verus! {

/// What a leaf matcher does, as a value: it consumes a fixed number of characters
/// and accepts or rejects them.
pub enum LeafModel {
    /// Consumes as many characters as the text holds, and accepts exactly it.
    Literal(Seq<char>),
    /// Consumes one character, and accepts anything.
    Wildcard,
}

impl LeafModel {
    /// The number of characters one attempt consumes.
    pub open spec fn width(self) -> nat {
        match self {
            LeafModel::Literal(text) => text.len(),
            LeafModel::Wildcard => 1,
        }
    }

    /// Whether an attempt accepts the characters `taken`.
    pub open spec fn accepts(self, taken: Seq<char>) -> bool {
        match self {
            LeafModel::Literal(text) => taken == text,
            LeafModel::Wildcard => true,
        }
    }
}

/// A test on a fixed-length slice of text.
pub trait Matcher: Sized {
    /// What this matcher does.
    spec fn model(&self) -> LeafModel;

    /// Whether the matcher accepts `string`.
    fn matches(&self, string: String) -> (r: bool)
        ensures
            r == self.model().accepts(string@),
    ;

    /// The number of characters the matcher tests.
    fn checked_string_length(&self) -> (r: usize)
        ensures
            r == self.model().width(),
    ;

    /// The matcher as the single-step behaviour of a pattern node.
    fn into_match(self) -> (r: Match)
        ensures
            r.leaf() == self.model(),
    ;
}

} // verus!
