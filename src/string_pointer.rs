use vstd::prelude::*;

verus! {

/// Why a cursor operation could not be carried out.
#[derive(Debug, PartialEq, Eq, Structural)]
pub enum StringPointerError {
    /// More characters were asked for than remain after the position.
    SizeExceeded,
    /// A return to a checkpoint was asked for while none is saved.
    NoCheckpointToReturn,
}

/// A text with a position in it and a stack of saved positions (checkpoints).
/// Slices are taken from the position on; a checkpoint lets the position be
/// reset to where it was when the checkpoint was saved.
pub struct StringPointer {
    index: usize,
    string: String,
    check_points: Vec<usize>,
}

/// The checkpoint stack after saving `position` onto `stack`: a position equal to
/// the top one is not pushed a second time.
pub open spec fn with_checkpoint(stack: Seq<usize>, position: usize) -> Seq<usize> {
    if stack.len() > 0 && stack.last() == position {
        stack
    } else {
        stack.push(position)
    }
}

impl StringPointer {
    /// The characters of the text.
    pub closed spec fn text(&self) -> Seq<char> {
        self.string@
    }

    /// The current position, as a number of characters from the start.
    pub closed spec fn position(&self) -> usize {
        self.index
    }

    /// The saved positions, oldest first.
    pub closed spec fn checkpoints(&self) -> Seq<usize> {
        self.check_points@
    }

    /// The position lies within the text, and the saved positions rise strictly
    /// from the oldest to the newest, none past the position.
    pub open spec fn wf(&self) -> bool {
        &&& self.position() <= self.text().len()
        &&& forall|i: int|
            0 <= i < self.checkpoints().len() ==> #[trigger] self.checkpoints()[i]
                <= self.position()
        &&& forall|i: int, j: int|
            0 <= i < j < self.checkpoints().len() ==> #[trigger] self.checkpoints()[i]
                < #[trigger] self.checkpoints()[j]
    }

    /// A cursor at the start of `string`, with no checkpoint.
    pub fn from(string: &str) -> (r: StringPointer)
        ensures
            r.wf(),
            r.text() == string@,
            r.position() == 0,
            r.checkpoints() == Seq::<usize>::empty(),
    {
        StringPointer {
            index: 0,
            string: String::from_str(string),
            check_points: Vec::new(),
        }
    }

    /// Takes the next `amount` characters and moves the position past them.
    /// Fails, and changes nothing, where fewer than `amount` remain.
    pub fn take_next(&mut self, amount: usize) -> (r: Result<String, StringPointerError>)
        requires
            old(self).wf(),
        ensures
            final(self).wf(),
            final(self).text() == old(self).text(),
            final(self).checkpoints() == old(self).checkpoints(),
            old(self).position() + amount > old(self).text().len() ==> {
                &&& r == Err::<String, StringPointerError>(StringPointerError::SizeExceeded)
                &&& final(self).position() == old(self).position()
            },
            old(self).position() + amount <= old(self).text().len() ==> {
                &&& r is Ok
                &&& r->Ok_0@ == old(self).text().subrange(
                    old(self).position() as int,
                    old(self).position() + amount,
                )
                &&& final(self).position() == old(self).position() + amount
            },
    {
        if self.max_index() - self.index < amount {
            return Err(StringPointerError::SizeExceeded);
        }
        let result = String::from_str(
            self.string.as_str().substring_char(self.index, self.index + amount),
        );
        assert(self.checkpoints() == old(self).checkpoints());
        self.index = self.index + amount;
        Ok(result)
    }

    /// Saves the position as a checkpoint, unless it is already the newest one.
    pub fn set_checkpoint(&mut self)
        requires
            old(self).wf(),
        ensures
            final(self).wf(),
            final(self).text() == old(self).text(),
            final(self).position() == old(self).position(),
            final(self).checkpoints() == with_checkpoint(
                old(self).checkpoints(),
                old(self).position(),
            ),
    {
        let count = self.check_points.len();
        if count == 0 || self.check_points[count - 1] != self.index {
            self.check_points.push(self.index);
            assert(forall|i: int|
                0 <= i < count ==> #[trigger] self.checkpoints()[i] == old(self).checkpoints()[i]);
        }
    }

    /// Resets the position to the newest checkpoint and drops that checkpoint.
    /// Fails, and changes nothing, where no checkpoint is saved.
    pub fn return_to_checkpoint(&mut self) -> (r: Result<(), StringPointerError>)
        requires
            old(self).wf(),
        ensures
            final(self).wf(),
            final(self).text() == old(self).text(),
            old(self).checkpoints().len() == 0 ==> {
                &&& r == Err::<(), StringPointerError>(StringPointerError::NoCheckpointToReturn)
                &&& final(self).position() == old(self).position()
                &&& final(self).checkpoints() == old(self).checkpoints()
            },
            old(self).checkpoints().len() > 0 ==> {
                &&& r == Ok::<(), StringPointerError>(())
                &&& final(self).position() == old(self).checkpoints().last()
                &&& final(self).checkpoints() == old(self).checkpoints().drop_last()
            },
    {
        match self.check_points.pop() {
            Some(new_index) => {
                self.index = new_index;
                Ok(())
            },
            None => Err(StringPointerError::NoCheckpointToReturn),
        }
    }

    /// Whether the position is at the end of the text.
    pub fn at_the_end(&self) -> (r: bool)
        ensures
            r == (self.position() == self.text().len()),
    {
        self.index == self.max_index()
    }

    /// The current position.
    pub fn index(&self) -> (r: usize)
        ensures
            r == self.position(),
    {
        self.index
    }

    /// The saved positions, oldest first.
    pub fn check_points(&self) -> (r: &Vec<usize>)
        ensures
            r@ == self.checkpoints(),
    {
        &self.check_points
    }

    /// The number of characters in the text.
    fn max_index(&self) -> (r: usize)
        ensures
            r == self.text().len(),
    {
        self.string.as_str().unicode_len()
    }
}

} // verus!
