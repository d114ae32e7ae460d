use vstd::prelude::*;

use crate::matcher::LeafModel;
use crate::regex::semantics::step;
use crate::string_pointer::{StringPointer, StringPointerError};

verus! {

/// The own behaviour of a pattern node: one attempt on the cursor.
pub trait RegexType {
    /// The leaf step one attempt makes.
    spec fn behaviour(&self) -> LeafModel;

    /// Makes one attempt from the cursor's position, moving it past what was
    /// consumed, and reports whether it was accepted.
    fn matches_string(&self, string_pointer: &mut StringPointer) -> (r: Result<
        bool,
        StringPointerError,
    >)
        requires
            old(string_pointer).wf(),
        ensures
            final(string_pointer).wf(),
            final(string_pointer).text() == old(string_pointer).text(),
            final(string_pointer).checkpoints() == old(string_pointer).checkpoints(),
            r == step(
                self.behaviour(),
                old(string_pointer).text(),
                old(string_pointer).position() as nat,
            ).outcome(),
            final(string_pointer).position() == step(
                self.behaviour(),
                old(string_pointer).text(),
                old(string_pointer).position() as nat,
            ).end(old(string_pointer).position() as nat),
    ;
}

} // verus!
