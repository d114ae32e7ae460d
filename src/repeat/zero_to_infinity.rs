use vstd::prelude::*;

use crate::repeat::Repeat;

verus! {

/// A repeat any number of times, none included.
pub struct ZeroToInfinity;

impl Repeat for ZeroToInfinity {
    open spec fn minimum(&self) -> Option<usize> {
        None
    }

    open spec fn maximum(&self) -> Option<usize> {
        None
    }

    fn get_minimum(&self) -> (r: Option<usize>) {
        None
    }

    fn get_maximum(&self) -> (r: Option<usize>) {
        None
    }
}

} // verus!
