use vstd::prelude::*;

use crate::matcher::LeafModel;
use crate::string_pointer::StringPointerError;

verus! {

/// One node of a pattern chain, as a value: its leaf step, and, where it repeats,
/// the least count and the greatest count if there is one.
pub struct NodeModel {
    pub leaf: LeafModel,
    pub repeat: Option<(usize, Option<usize>)>,
}

/// What one attempt of a leaf step does from a position.
pub enum Step {
    /// Fewer characters remain than the step consumes; the position stays.
    Exhausted,
    /// The step consumed characters up to the given position and rejected them.
    Rejected(nat),
    /// The step consumed characters up to the given position and accepted them.
    Accepted(nat),
}

impl Step {
    /// The result that an attempt reports.
    pub open spec fn outcome(self) -> Result<bool, StringPointerError> {
        match self {
            Step::Exhausted => Err(StringPointerError::SizeExceeded),
            Step::Rejected(_) => Ok(false),
            Step::Accepted(_) => Ok(true),
        }
    }

    /// The position after an attempt made from `from`.
    pub open spec fn end(self, from: nat) -> nat {
        match self {
            Step::Exhausted => from,
            Step::Rejected(next) => next,
            Step::Accepted(next) => next,
        }
    }
}

/// One attempt of `leaf` on `text` from position `from`.
pub open spec fn step(leaf: LeafModel, text: Seq<char>, from: nat) -> Step {
    let end = from + leaf.width();
    if end > text.len() {
        Step::Exhausted
    } else if leaf.accepts(text.subrange(from as int, end as int)) {
        Step::Accepted(end)
    } else {
        Step::Rejected(end)
    }
}

/// `count` attempts of `leaf` in a row from `from`: the position after them all
/// when each is accepted, `None` at the first rejection, an error at the first
/// exhaustion.
pub open spec fn mandatory_repeats(
    leaf: LeafModel,
    text: Seq<char>,
    from: nat,
    count: nat,
) -> Result<Option<nat>, StringPointerError>
    decreases count,
{
    if count == 0 {
        Ok(Some(from))
    } else {
        match step(leaf, text, from) {
            Step::Exhausted => Err(StringPointerError::SizeExceeded),
            Step::Rejected(_) => Ok(None),
            Step::Accepted(next) => mandatory_repeats(leaf, text, next, (count - 1) as nat),
        }
    }
}

/// Whether `count` repeats have reached the greatest count `most`.
pub open spec fn reached(most: Option<usize>, count: nat) -> bool {
    match most {
        Some(most) => count >= most,
        None => false,
    }
}

/// The greatest count of a node's repeat, if it has one.
pub open spec fn most_of(repeat: Option<(usize, Option<usize>)>) -> Option<usize> {
    match repeat {
        Some((_, most)) => most,
        None => None,
    }
}

/// The result of matching `chain` against `text` from position `from`: the whole
/// chain must match and leave the position at the end of the text. An error
/// reports that some step ran out of text.
///
/// A node without a repeat makes one attempt and hands on to the rest of the
/// chain. A repeating node first makes its least count of attempts; a rejection
/// there fails the node. It then tries the rest of the chain, and after that
/// further repeats one at a time (`extra_repeats`).
pub open spec fn chain_matches(chain: Seq<NodeModel>, text: Seq<char>, from: nat) -> Result<
    bool,
    StringPointerError,
>
    decreases chain.len(), 1int, 0int,
{
    if chain.len() == 0 {
        Ok(from == text.len())
    } else {
        let node = chain[0];
        let rest = chain.drop_first();
        match node.repeat {
            None => match step(node.leaf, text, from) {
                Step::Exhausted => Err(StringPointerError::SizeExceeded),
                Step::Rejected(_) => Ok(false),
                Step::Accepted(next) => chain_matches(rest, text, next),
            },
            Some((least, _)) => match mandatory_repeats(node.leaf, text, from, least as nat) {
                Err(error) => Err(error),
                Ok(None) => Ok(false),
                Ok(Some(next)) => match chain_matches(rest, text, next) {
                    Ok(false) => extra_repeats(chain, text, next, least as nat),
                    other => other,
                },
            },
        }
    }
}

/// The search for further repeats of the first node of `chain`, `count` repeats
/// having been made and the rest of the chain having failed from `from`.
///
/// Each round makes one more attempt, which moves the position whether it is
/// accepted or rejected; after an accepted one the rest of the chain is tried
/// from there. The search ends with the first success of the rest, at the first
/// exhaustion, or when the greatest count is reached. A step that consumes
/// nothing would leave the position where the rest already failed, so no round
/// is made for it.
pub open spec fn extra_repeats(chain: Seq<NodeModel>, text: Seq<char>, from: nat, count: nat) -> Result<
    bool,
    StringPointerError,
>
    decreases chain.len(), 0int, text.len() - from,
{
    if chain.len() == 0 || chain[0].leaf.width() == 0 || reached(most_of(chain[0].repeat), count) {
        Ok(false)
    } else {
        match step(chain[0].leaf, text, from) {
            Step::Exhausted => Err(StringPointerError::SizeExceeded),
            Step::Rejected(next) => extra_repeats(chain, text, next, count + 1),
            Step::Accepted(next) => match chain_matches(chain.drop_first(), text, next) {
                Ok(false) => extra_repeats(chain, text, next, count + 1),
                other => other,
            },
        }
    }
}

/// Whether `chain` matches the whole of `text`.
pub open spec fn matches_text(chain: Seq<NodeModel>, text: Seq<char>) -> bool {
    chain_matches(chain, text, 0) == Ok::<bool, StringPointerError>(true)
}

/// With a step that consumes something, `count` accepted attempts move the
/// position on by at least `count`.
pub proof fn lemma_mandatory_advances(leaf: LeafModel, text: Seq<char>, from: nat, count: nat)
    requires
        leaf.width() > 0,
    ensures
        mandatory_repeats(leaf, text, from, count) matches Ok(Some(next)) ==> next >= from + count,
    decreases count,
{
    if count > 0 {
        if let Step::Accepted(next) = step(leaf, text, from) {
            lemma_mandatory_advances(leaf, text, next, (count - 1) as nat);
        }
    }
}

} // verus!
