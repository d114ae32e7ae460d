use vstd::prelude::*;

use crate::matcher::any::Any;
use crate::matcher::string::Str;
use crate::matcher::{LeafModel, Matcher};
use crate::regex::regex_type::RegexType;
use crate::string_pointer::{StringPointer, StringPointerError};

verus! {

/// The single-step behaviour of a pattern node: one leaf matcher.
pub enum Match {
    Literal(Str),
    Any(Any),
}

impl Match {
    /// What one attempt of this behaviour does.
    pub open spec fn leaf(&self) -> LeafModel {
        match self {
            Match::Literal(matcher) => LeafModel::Literal(matcher.text()),
            Match::Any(_) => LeafModel::Wildcard,
        }
    }

    /// The behaviour that applies `matcher` once.
    pub fn new(matcher: impl Matcher) -> (r: Match)
        ensures
            r.leaf() == matcher.model(),
    {
        matcher.into_match()
    }
}

impl Matcher for Match {
    open spec fn model(&self) -> LeafModel {
        self.leaf()
    }

    fn matches(&self, string: String) -> (r: bool) {
        match self {
            Match::Literal(matcher) => matcher.matches(string),
            Match::Any(matcher) => matcher.matches(string),
        }
    }

    fn checked_string_length(&self) -> (r: usize) {
        match self {
            Match::Literal(matcher) => matcher.checked_string_length(),
            Match::Any(matcher) => matcher.checked_string_length(),
        }
    }

    fn into_match(self) -> (r: Match) {
        self
    }
}

impl RegexType for Match {
    open spec fn behaviour(&self) -> LeafModel {
        self.leaf()
    }

    fn matches_string(&self, string_pointer: &mut StringPointer) -> (r: Result<
        bool,
        StringPointerError,
    >) {
        let checked_string_length = self.checked_string_length();
        match string_pointer.take_next(checked_string_length) {
            Ok(string) => Ok(self.matches(string)),
            Err(error) => Err(error),
        }
    }
}

} // verus!
