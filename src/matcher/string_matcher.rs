use vstd::prelude::*;

use crate::string_pointer::StringPointer;

verus! {

/// A matcher that reads one given, exact text straight from a cursor.
pub struct StringMatcher {
    string: String,
}

impl StringMatcher {
    /// The text this matcher expects.
    pub closed spec fn expected(&self) -> Seq<char> {
        self.string@
    }

    /// A matcher for exactly `string`.
    pub fn new(string: String) -> (r: StringMatcher)
        ensures
            r.expected() == string@,
    {
        StringMatcher { string }
    }

    /// Whether the characters from the cursor's position on begin with the
    /// expected text.
    pub fn matches(&self, string_pointer: StringPointer) -> (r: bool)
        requires
            string_pointer.wf(),
        ensures
            r == {
                let start = string_pointer.position();
                let end = start + self.expected().len();
                &&& end <= string_pointer.text().len()
                &&& string_pointer.text().subrange(start as int, end as int) == self.expected()
            },
    {
        let mut string_pointer = string_pointer;
        match string_pointer.take_next(self.string.as_str().unicode_len()) {
            Ok(other_string) => other_string == self.string,
            Err(_) => false,
        }
    }
}

} // verus!
