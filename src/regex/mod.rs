use vstd::prelude::*;

use crate::matcher::Matcher;
use crate::regex::semantics::{
    NodeModel,
    chain_matches,
    extra_repeats,
    lemma_mandatory_advances,
    mandatory_repeats,
    matches_text,
    reached,
    step,
};
use crate::repeat::Repeat;
use crate::string_pointer::{StringPointer, StringPointerError, with_checkpoint};

mod matcher;
mod regex_type;
pub mod semantics;

pub use self::matcher::Match;
pub use self::regex_type::RegexType;

verus! {

/// A chain of pattern nodes. Each node makes its own step, possibly repeated
/// within bounds, and hands the rest of the text on to the next node; the last
/// node must leave nothing over.
pub struct Regex {
    regex_type: Match,
    next: Option<Box<Regex>>,
    repeat: Option<(usize, Option<usize>)>,
}

/// `prefix` is where `stack` starts.
pub open spec fn extends(prefix: Seq<usize>, stack: Seq<usize>) -> bool {
    &&& prefix.len() <= stack.len()
    &&& forall|i: int| 0 <= i < prefix.len() ==> #[trigger] prefix[i] == stack[i]
}

/// Saving a checkpoint keeps those saved before it.
proof fn lemma_with_checkpoint_extends(saved: Seq<usize>, at: usize)
    ensures
        extends(saved, with_checkpoint(saved, at)),
{
    assert(forall|i: int| 0 <= i < saved.len() ==> saved.push(at)[i] == saved[i]);
}

/// How a search step leaves the cursor: on the same text, with every checkpoint
/// saved before it still in place, and, where it fails, with no checkpoint
/// added.
spec fn leaves(before: StringPointer, after: StringPointer, r: Result<bool, StringPointerError>) -> bool {
    &&& after.wf()
    &&& after.text() == before.text()
    &&& extends(before.checkpoints(), after.checkpoints())
    &&& r == Ok::<bool, StringPointerError>(false) ==> after.checkpoints() == before.checkpoints()
}

/// Moves the cursor back to `at`, saved by the last `set_checkpoint` call, and
/// leaves the checkpoints as they stood before that call: `saved`, `depth` of them.
///
/// That call pushed nothing where `at` was already the newest checkpoint, saved
/// by an enclosing search; the return then takes that checkpoint, and it is
/// saved again.
fn roll_back(
    string_pointer: &mut StringPointer,
    depth: usize,
    Ghost(saved): Ghost<Seq<usize>>,
    Ghost(at): Ghost<usize>,
)
    requires
        old(string_pointer).wf(),
        depth == saved.len(),
        old(string_pointer).checkpoints() == with_checkpoint(saved, at),
    ensures
        final(string_pointer).wf(),
        final(string_pointer).text() == old(string_pointer).text(),
        final(string_pointer).position() == at,
        final(string_pointer).checkpoints() == saved,
{
    let _ = string_pointer.return_to_checkpoint();
    if string_pointer.check_points().len() < depth {
        proof {
            if saved.len() >= 2 {
                assert(old(string_pointer).checkpoints() == saved);
                assert(saved[saved.len() - 2] < saved[saved.len() - 1]);
            }
        }
        string_pointer.set_checkpoint();
        assert(string_pointer.checkpoints() =~= saved);
    }
}

impl Regex {
    /// The node at the head of the chain.
    pub closed spec fn node(&self) -> NodeModel {
        NodeModel { leaf: self.regex_type.leaf(), repeat: self.repeat }
    }

    /// The nodes of the chain, head first.
    pub closed spec fn nodes(&self) -> Seq<NodeModel>
        decreases self,
    {
        match self.next {
            Some(next) => seq![self.node()] + next.nodes(),
            None => seq![self.node()],
        }
    }

    /// The nodes after the head.
    closed spec fn rest(&self) -> Seq<NodeModel> {
        match self.next {
            Some(next) => next.nodes(),
            None => Seq::empty(),
        }
    }

    proof fn lemma_nodes(&self)
        ensures
            self@.len() >= 1,
            self@[0] == self.node(),
            self@.drop_first() == self.rest(),
    {
        assert(self@.drop_first() =~= self.rest());
    }

    /// A single node that applies `matcher` once.
    pub fn matcher(matcher: impl Matcher) -> (r: Regex)
        ensures
            r@ == seq![NodeModel { leaf: matcher.model(), repeat: None }],
    {
        Self::new_regex(Match::new(matcher))
    }

    fn new_regex(regex_type: Match) -> (r: Regex)
        ensures
            r@ == seq![NodeModel { leaf: regex_type.leaf(), repeat: None }],
    {
        Regex { regex_type, next: None, repeat: None }
    }

    /// The chain with `next` appended after its last node.
    pub fn followed_by(self, next: Regex) -> (r: Regex)
        ensures
            r@ == self@ + next@,
        decreases self,
    {
        let Regex { regex_type, next: own_next, repeat } = self;
        match own_next {
            Some(next_regex) => {
                let appended = (*next_regex).followed_by(next);
                let r = Regex { regex_type, next: Some(Box::new(appended)), repeat };
                assert(r@ =~= self@ + next@);
                r
            },
            None => {
                let r = Regex { regex_type, next: Some(Box::new(next)), repeat };
                assert(r@ =~= self@ + next@);
                r
            },
        }
    }

    /// The chain with its head node repeating as `repeat` says; no least count
    /// counts as none.
    pub fn that_repeats(self, repeat: impl Repeat) -> (r: Regex)
        ensures
            r@ == seq![
                NodeModel {
                    leaf: self@[0].leaf,
                    repeat: Some(
                        (
                            (match repeat.minimum() {
                                Some(least) => least,
                                None => 0,
                            }),
                            repeat.maximum(),
                        ),
                    ),
                },
            ] + self@.drop_first(),
    {
        proof {
            self.lemma_nodes();
        }
        let least = match repeat.get_minimum() {
            Some(least) => least,
            None => 0,
        };
        let Regex { regex_type, next, repeat: _ } = self;
        let r = Regex { regex_type, next, repeat: Some((least, repeat.get_maximum())) };
        proof {
            r.lemma_nodes();
            assert(r@ =~= seq![r@[0]] + r@.drop_first());
        }
        r
    }

    /// Whether the chain matches the whole of `string`.
    pub fn matches(&self, string: &str) -> (r: bool)
        ensures
            r == matches_text(self@, string@),
    {
        let mut string_pointer = StringPointer::from(string);
        match self.matches_string(&mut string_pointer) {
            Ok(matched) => matched,
            Err(_) => false,
        }
    }

    /// Matches the chain from the cursor's position to the end of the text.
    fn matches_string(&self, string_pointer: &mut StringPointer) -> (r: Result<
        bool,
        StringPointerError,
    >)
        requires
            old(string_pointer).wf(),
        ensures
            r == chain_matches(
                self@,
                old(string_pointer).text(),
                old(string_pointer).position() as nat,
            ),
            leaves(*old(string_pointer), *final(string_pointer), r),
        decreases self@.len(), 2int,
    {
        match &self.repeat {
            None => self.matches_string_without_repeat(string_pointer),
            Some(repeat) => self.matches_string_with_repeat(string_pointer, repeat.0, repeat.1),
        }
    }

    fn matches_string_without_repeat(&self, string_pointer: &mut StringPointer) -> (r: Result<
        bool,
        StringPointerError,
    >)
        requires
            old(string_pointer).wf(),
            self.repeat is None,
        ensures
            r == chain_matches(
                self@,
                old(string_pointer).text(),
                old(string_pointer).position() as nat,
            ),
            leaves(*old(string_pointer), *final(string_pointer), r),
        decreases self@.len(), 1int,
    {
        proof {
            self.lemma_nodes();
        }
        let regex_matches_result = self.own_regex_matches(string_pointer);
        if let Ok(true) = regex_matches_result {
            return self.next_regex_matches(string_pointer);
        }
        regex_matches_result
    }

    fn matches_string_with_repeat(
        &self,
        string_pointer: &mut StringPointer,
        min_repeat: usize,
        max_repeat: Option<usize>,
    ) -> (r: Result<bool, StringPointerError>)
        requires
            old(string_pointer).wf(),
            self.repeat == Some((min_repeat, max_repeat)),
        ensures
            r == chain_matches(
                self@,
                old(string_pointer).text(),
                old(string_pointer).position() as nat,
            ),
            leaves(*old(string_pointer), *final(string_pointer), r),
        decreases self@.len(), 1int,
    {
        proof {
            self.lemma_nodes();
        }
        let ghost text = string_pointer.text();
        let ghost saved = string_pointer.checkpoints();
        let ghost result = chain_matches(self@, text, string_pointer.position() as nat);
        let ghost from = string_pointer.position() as nat;
        match self.minimum_repeat_matches(string_pointer, min_repeat) {
            Ok(true) => {},
            other => return other,
        }
        let ghost after = string_pointer.position();
        let depth = string_pointer.check_points().len();
        string_pointer.set_checkpoint();
        proof {
            lemma_with_checkpoint_extends(saved, after);
        }
        match self.next_regex_matches(string_pointer) {
            Ok(false) => roll_back(string_pointer, depth, Ghost(saved), Ghost(after)),
            other => return other,
        }
        assert(result == extra_repeats(self@, text, after as nat, min_repeat as nat));
        // A step that consumes nothing would retry the rest from where it just failed.
        if self.regex_type.checked_string_length() == 0 {
            return Ok(false);
        }
        proof {
            lemma_mandatory_advances(self.node().leaf, text, from, min_repeat as nat);
        }
        // Each further attempt counts towards the greatest count, accepted or not.
        let mut counter = min_repeat;
        while !self.counter_at_max(counter, &max_repeat)
            invariant
                string_pointer.wf(),
                text == old(string_pointer).text(),
                saved == old(string_pointer).checkpoints(),
                result == chain_matches(self@, text, old(string_pointer).position() as nat),
                string_pointer.text() == text,
                string_pointer.checkpoints() == saved,
                counter <= string_pointer.position(),
                self@.len() >= 1,
                self@[0] == self.node(),
                self@.drop_first() == self.rest(),
                self.node().leaf.width() > 0,
                self.repeat == Some((min_repeat, max_repeat)),
                result == extra_repeats(
                    self@,
                    text,
                    string_pointer.position() as nat,
                    counter as nat,
                ),
            decreases text.len() - string_pointer.position(),
        {
            let own_regex_matches = self.own_regex_matches(string_pointer);
            let ghost after_own = string_pointer.position();
            let depth = string_pointer.check_points().len();
            string_pointer.set_checkpoint();
            proof {
                lemma_with_checkpoint_extends(saved, after_own);
            }
            match own_regex_matches {
                Ok(true) => match self.next_regex_matches(string_pointer) {
                    Ok(false) => roll_back(string_pointer, depth, Ghost(saved), Ghost(after_own)),
                    other => return other,
                },
                Ok(false) => roll_back(string_pointer, depth, Ghost(saved), Ghost(after_own)),
                Err(error) => return Err(error),
            }
            counter = counter + 1;
        }
        Ok(false)
    }

    /// Makes the least count of attempts of the node's own step in a row, stopping
    /// at the first that is not accepted.
    fn minimum_repeat_matches(&self, string_pointer: &mut StringPointer, min: usize) -> (r: Result<
        bool,
        StringPointerError,
    >)
        requires
            old(string_pointer).wf(),
        ensures
            final(string_pointer).wf(),
            final(string_pointer).text() == old(string_pointer).text(),
            final(string_pointer).checkpoints() == old(string_pointer).checkpoints(),
            (match mandatory_repeats(
                self.node().leaf,
                old(string_pointer).text(),
                old(string_pointer).position() as nat,
                min as nat,
            ) {
                Err(error) => r == Err::<bool, StringPointerError>(error),
                Ok(None) => r == Ok::<bool, StringPointerError>(false),
                Ok(Some(next)) => r == Ok::<bool, StringPointerError>(true)
                    && final(string_pointer).position() == next,
            }),
    {
        let ghost text = string_pointer.text();
        let ghost result = mandatory_repeats(
            self.node().leaf,
            text,
            string_pointer.position() as nat,
            min as nat,
        );
        let ghost saved = string_pointer.checkpoints();
        let mut done: usize = 0;
        while done < min
            invariant
                string_pointer.wf(),
                text == old(string_pointer).text(),
                saved == old(string_pointer).checkpoints(),
                result == mandatory_repeats(
                    self.node().leaf,
                    text,
                    old(string_pointer).position() as nat,
                    min as nat,
                ),
                string_pointer.text() == text,
                string_pointer.checkpoints() == saved,
                done <= min,
                result == mandatory_repeats(
                    self.node().leaf,
                    text,
                    string_pointer.position() as nat,
                    (min - done) as nat,
                ),
            decreases min - done,
        {
            match self.own_regex_matches(string_pointer) {
                Ok(true) => {},
                Ok(false) => return Ok(false),
                Err(error) => return Err(error),
            }
            done = done + 1;
        }
        Ok(true)
    }

    /// Whether `counter` repeats have reached the greatest count.
    fn counter_at_max(&self, counter: usize, max_repeat: &Option<usize>) -> (r: bool)
        ensures
            r == reached(*max_repeat, counter as nat),
    {
        match max_repeat {
            Some(value) => counter >= *value,
            None => false,
        }
    }

    /// One attempt of the node's own step.
    fn own_regex_matches(&self, string_pointer: &mut StringPointer) -> (r: Result<
        bool,
        StringPointerError,
    >)
        requires
            old(string_pointer).wf(),
        ensures
            final(string_pointer).wf(),
            final(string_pointer).text() == old(string_pointer).text(),
            final(string_pointer).checkpoints() == old(string_pointer).checkpoints(),
            r == step(
                self.node().leaf,
                old(string_pointer).text(),
                old(string_pointer).position() as nat,
            ).outcome(),
            final(string_pointer).position() == step(
                self.node().leaf,
                old(string_pointer).text(),
                old(string_pointer).position() as nat,
            ).end(old(string_pointer).position() as nat),
    {
        self.regex_type.matches_string(string_pointer)
    }

    /// Matches the rest of the chain from the cursor's position; with no rest,
    /// the position must be at the end of the text.
    fn next_regex_matches(&self, string_pointer: &mut StringPointer) -> (r: Result<
        bool,
        StringPointerError,
    >)
        requires
            old(string_pointer).wf(),
        ensures
            r == chain_matches(
                self.rest(),
                old(string_pointer).text(),
                old(string_pointer).position() as nat,
            ),
            leaves(*old(string_pointer), *final(string_pointer), r),
        decreases self@.len(), 0int,
    {
        proof {
            self.lemma_nodes();
        }
        match &self.next {
            Some(next_regex) => next_regex.matches_string(string_pointer),
            None => Ok(string_pointer.at_the_end()),
        }
    }
}

impl View for Regex {
    type V = Seq<NodeModel>;

    closed spec fn view(&self) -> Seq<NodeModel> {
        self.nodes()
    }
}

} // verus!
