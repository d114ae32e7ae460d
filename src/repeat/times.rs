use vstd::prelude::*;

use crate::repeat::Repeat;

verus! {

/// A repeat an exact number of times.
pub struct Times {
    repeats: usize,
}

impl Times {
    /// A repeat exactly `repeats` times.
    pub fn new(repeats: usize) -> (r: Times)
        ensures
            r.minimum() == Some(repeats),
            r.maximum() == Some(repeats),
    {
        Times { repeats }
    }
}

impl Repeat for Times {
    closed spec fn minimum(&self) -> Option<usize> {
        Some(self.repeats)
    }

    closed spec fn maximum(&self) -> Option<usize> {
        Some(self.repeats)
    }

    fn get_minimum(&self) -> (r: Option<usize>) {
        Some(self.repeats)
    }

    fn get_maximum(&self) -> (r: Option<usize>) {
        Some(self.repeats)
    }
}

} // verus!
