use vstd::prelude::*;

pub mod times;
pub mod zero_to_infinity;

verus! {

/// How often a pattern node's own step should repeat: an optional least and an
/// optional greatest count. No least count means none; no greatest count means
/// no limit.
pub trait Repeat {
    /// The least count, if any.
    spec fn minimum(&self) -> Option<usize>;

    /// The greatest count, if any.
    spec fn maximum(&self) -> Option<usize>;

    fn get_minimum(&self) -> (r: Option<usize>)
        ensures
            r == self.minimum(),
    ;

    fn get_maximum(&self) -> (r: Option<usize>)
        ensures
            r == self.maximum(),
    ;
}

} // verus!
