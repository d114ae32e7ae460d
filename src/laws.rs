//! Properties of the matching semantics that relate several chains or hold for
//! whole families of texts.

use vstd::prelude::*;

use crate::matcher::LeafModel;
use crate::regex::semantics::{
    NodeModel,
    Step,
    chain_matches,
    extra_repeats,
    mandatory_repeats,
    matches_text,
    step,
};
use crate::string_pointer::StringPointerError;

verus! {

/// A node that applies `leaf` once.
pub open spec fn single(leaf: LeafModel) -> NodeModel {
    NodeModel { leaf, repeat: None }
}

/// Appending chains is associative: `a` followed by `b`, then by `c`, is the chain
/// `a` followed by `b` followed by `c`, and so matches the same texts. Three
/// single nodes give the three-node chain in their order.
pub proof fn lemma_followed_by_associative(
    a: Seq<NodeModel>,
    b: Seq<NodeModel>,
    c: Seq<NodeModel>,
    text: Seq<char>,
)
    ensures
        (a + b) + c == a + (b + c),
        matches_text((a + b) + c, text) == matches_text(a + (b + c), text),
        a.len() == 1 && b.len() == 1 && c.len() == 1 ==> (a + b) + c == seq![a[0], b[0], c[0]],
{
    assert((a + b) + c =~= a + (b + c));
    if a.len() == 1 && b.len() == 1 && c.len() == 1 {
        assert((a + b) + c =~= seq![a[0], b[0], c[0]]);
    }
}

/// `count` wildcard attempts from `from` are all accepted where the text has room
/// for them, and run out of text otherwise.
proof fn lemma_wildcard_repeats(text: Seq<char>, from: nat, count: nat)
    requires
        from <= text.len(),
    ensures
        mandatory_repeats(LeafModel::Wildcard, text, from, count) == if from + count
            <= text.len() {
            Ok::<Option<nat>, StringPointerError>(Some(from + count))
        } else {
            Err(StringPointerError::SizeExceeded)
        },
    decreases count,
{
    if count > 0 && from + 1 <= text.len() {
        lemma_wildcard_repeats(text, from + 1, (count - 1) as nat);
    }
}

/// A wildcard that repeats exactly `n` times matches exactly the texts of length
/// `n`.
pub proof fn lemma_exact_wildcard_repeat(n: usize, text: Seq<char>)
    ensures
        matches_text(
            seq![NodeModel { leaf: LeafModel::Wildcard, repeat: Some((n, Some(n))) }],
            text,
        ) <==> text.len() == n,
{
    let chain = seq![NodeModel { leaf: LeafModel::Wildcard, repeat: Some((n, Some(n))) }];
    lemma_wildcard_repeats(text, 0, n as nat);
    assert(chain.drop_first() =~= Seq::<NodeModel>::empty());
    if n <= text.len() {
        assert(chain_matches(chain.drop_first(), text, n as nat) == Ok::<bool, StringPointerError>(
            n == text.len(),
        ));
        assert(extra_repeats(chain, text, n as nat, n as nat) == Ok::<
            bool,
            StringPointerError,
        >(false));
    }
}

/// A single literal node without a repeat matches exactly the text it holds:
/// nothing may be left over.
pub proof fn lemma_literal_matches_whole_text(literal: Seq<char>, text: Seq<char>)
    ensures
        matches_text(seq![single(LeafModel::Literal(literal))], text) <==> text == literal,
{
    let chain = seq![single(LeafModel::Literal(literal))];
    assert(chain.drop_first() =~= Seq::<NodeModel>::empty());
    assert(chain_matches(chain.drop_first(), text, literal.len()) == Ok::<bool, StringPointerError>(
        literal.len() == text.len(),
    ));
    if text == literal {
        assert(text.subrange(0, text.len() as int) =~= text);
    }
    if matches_text(chain, text) {
        assert(text.subrange(0, literal.len() as int) == literal);
        assert(text =~= text.subrange(0, literal.len() as int));
    }
}

/// The chain: `prefix` once, the character `unit` any number of times, `suffix`
/// once.
pub open spec fn literal_repeat_literal(prefix: Seq<char>, unit: char, suffix: Seq<char>) -> Seq<
    NodeModel,
> {
    seq![
        single(LeafModel::Literal(prefix)),
        NodeModel { leaf: LeafModel::Literal(seq![unit]), repeat: Some((0, None)) },
        single(LeafModel::Literal(suffix)),
    ]
}

/// The text: `prefix`, then `count` copies of `unit`, then `suffix`.
pub open spec fn prefix_units_suffix(
    prefix: Seq<char>,
    unit: char,
    count: nat,
    suffix: Seq<char>,
) -> Seq<char> {
    prefix + Seq::new(count, |i: int| unit) + suffix
}

/// From any position of the text up to the start of the suffix, the last node
/// makes its attempt without running out of text, and at the start of the suffix
/// it matches the rest.
proof fn lemma_suffix_attempt(
    prefix: Seq<char>,
    unit: char,
    count: nat,
    suffix: Seq<char>,
    i: nat,
)
    requires
        i <= count,
    ensures
        chain_matches(
            seq![single(LeafModel::Literal(suffix))],
            prefix_units_suffix(prefix, unit, count, suffix),
            prefix.len() + i,
        ) is Ok,
        i == count ==> chain_matches(
            seq![single(LeafModel::Literal(suffix))],
            prefix_units_suffix(prefix, unit, count, suffix),
            prefix.len() + i,
        ) == Ok::<bool, StringPointerError>(true),
{
    let text = prefix_units_suffix(prefix, unit, count, suffix);
    let chain = seq![single(LeafModel::Literal(suffix))];
    let end = prefix.len() + i + suffix.len();
    assert(chain.drop_first() =~= Seq::<NodeModel>::empty());
    assert(chain_matches(chain.drop_first(), text, end) == Ok::<bool, StringPointerError>(
        end == text.len(),
    ));
    if i == count {
        assert(text.subrange((prefix.len() + count) as int, text.len() as int) =~= suffix);
    }
}

/// Before the units run out, the search for further repeats of the middle node
/// succeeds.
proof fn lemma_units_found(
    prefix: Seq<char>,
    unit: char,
    count: nat,
    suffix: Seq<char>,
    i: nat,
    repeats: nat,
)
    requires
        i < count,
    ensures
        extra_repeats(
            literal_repeat_literal(prefix, unit, suffix).drop_first(),
            prefix_units_suffix(prefix, unit, count, suffix),
            prefix.len() + i,
            repeats,
        ) == Ok::<bool, StringPointerError>(true),
    decreases count - i,
{
    let text = prefix_units_suffix(prefix, unit, count, suffix);
    let chain = literal_repeat_literal(prefix, unit, suffix).drop_first();
    let from = (prefix.len() + i) as int;
    assert(chain.drop_first() =~= seq![single(LeafModel::Literal(suffix))]);
    assert(text[from] == unit);
    assert(text.subrange(from, from + 1) =~= seq![unit]);
    assert(step(chain[0].leaf, text, from as nat) == Step::Accepted((from + 1) as nat));
    lemma_suffix_attempt(prefix, unit, count, suffix, i + 1);
    if i + 1 < count {
        lemma_units_found(prefix, unit, count, suffix, i + 1, repeats + 1);
    }
}

/// A literal, a single character repeated any number of times, and a literal
/// match the text made of the first literal, any number of copies of the
/// character, and the second literal.
pub proof fn lemma_literal_repeat_literal_matches(
    prefix: Seq<char>,
    unit: char,
    suffix: Seq<char>,
    count: nat,
)
    ensures
        matches_text(
            literal_repeat_literal(prefix, unit, suffix),
            prefix_units_suffix(prefix, unit, count, suffix),
        ),
{
    let text = prefix_units_suffix(prefix, unit, count, suffix);
    let chain = literal_repeat_literal(prefix, unit, suffix);
    assert(text.subrange(0, prefix.len() as int) =~= prefix);
    assert(step(chain[0].leaf, text, 0) == Step::Accepted(prefix.len()));
    assert(chain.drop_first().drop_first() =~= seq![single(LeafModel::Literal(suffix))]);
    let rest = chain.drop_first();
    assert(mandatory_repeats(rest[0].leaf, text, prefix.len(), 0) == Ok::<
        Option<nat>,
        StringPointerError,
    >(Some(prefix.len())));
    lemma_suffix_attempt(prefix, unit, count, suffix, 0);
    if count > 0 {
        lemma_units_found(prefix, unit, count, suffix, 0, 0);
    }
    assert(chain_matches(rest, text, prefix.len()) == Ok::<bool, StringPointerError>(true));
}

} // verus!
