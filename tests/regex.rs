use readex::matcher::any::Any;
use readex::matcher::string::Str;
use readex::regex::Regex;
use readex::repeat::times::Times;
use readex::repeat::zero_to_infinity::ZeroToInfinity;
use readex::repeat::Repeat;

/// A repeat between two counts, to show that the greatest count is kept.
struct Between(usize, usize);

impl Repeat for Between {
    fn minimum(&self) -> Option<usize> {
        Some(self.0)
    }

    fn maximum(&self) -> Option<usize> {
        Some(self.1)
    }

    fn get_minimum(&self) -> Option<usize> {
        Some(self.0)
    }

    fn get_maximum(&self) -> Option<usize> {
        Some(self.1)
    }
}

#[test]
fn it_works() {
    let _regex_one = Regex::matcher(Str::new("foo"))
        .followed_by(Regex::matcher(Any))
        .followed_by(Regex::matcher(Str::new("bar")))
        .followed_by(Regex::matcher(Any))
        .followed_by(Regex::matcher(Str::new("baz")));

    let _regex_two = Regex::matcher(Str::new("foo")).followed_by(
        Regex::matcher(Any).followed_by(
            Regex::matcher(Str::new("bar"))
                .followed_by(Regex::matcher(Any).followed_by(Regex::matcher(Str::new("baz")))),
        ),
    );

    let regex_three = Regex::matcher(Str::new("foo"))
        .followed_by(Regex::matcher(Str::new("A")).that_repeats(ZeroToInfinity))
        .followed_by(Regex::matcher(Str::new("bar")));

    let _regex_four = Regex::matcher(Str::new("A")).that_repeats(ZeroToInfinity);

    assert!(regex_three.matches("fooAAAAbar"));
}

#[test]
fn grouping_of_followed_by_does_not_matter() {
    let left = Regex::matcher(Str::new("foo"))
        .followed_by(Regex::matcher(Any))
        .followed_by(Regex::matcher(Str::new("bar")))
        .followed_by(Regex::matcher(Any))
        .followed_by(Regex::matcher(Str::new("baz")));
    let right = Regex::matcher(Str::new("foo")).followed_by(
        Regex::matcher(Any).followed_by(
            Regex::matcher(Str::new("bar"))
                .followed_by(Regex::matcher(Any).followed_by(Regex::matcher(Str::new("baz")))),
        ),
    );

    for text in ["foo bar baz", "foo-bar_baz", "foo bar ba", "foobarbaz", "foo bar baz "] {
        assert_eq!(left.matches(text), right.matches(text));
    }
    assert!(left.matches("foo bar baz"));
    assert!(right.matches("foo-bar_baz"));
    assert!(!left.matches("foo bar ba"));
    assert!(!right.matches("foo bar baz "));
}

#[test]
fn three_nodes_chain_in_order() {
    let regex = Regex::matcher(Str::new("a"))
        .followed_by(Regex::matcher(Str::new("b")))
        .followed_by(Regex::matcher(Str::new("c")));
    assert!(regex.matches("abc"));
    assert!(!regex.matches("acb"));
    assert!(!regex.matches("ab"));
}

#[test]
fn exact_repeat_of_wildcard() {
    let regex = Regex::matcher(Any).that_repeats(Times::new(3));
    assert!(regex.matches("AAA"));
    assert!(regex.matches("xyz"));
    assert!(!regex.matches("AA"));
    assert!(!regex.matches("AAAA"));
    assert!(!regex.matches(""));
}

#[test]
fn unbounded_repeat_between_literals() {
    let regex = Regex::matcher(Str::new("foo"))
        .followed_by(Regex::matcher(Str::new("A")).that_repeats(ZeroToInfinity))
        .followed_by(Regex::matcher(Str::new("bar")));
    assert!(regex.matches("fooAAAAbar"));
    assert!(regex.matches("foobar"));
    assert!(regex.matches("fooAbar"));
    assert!(!regex.matches("fooAAAbarX"));
    assert!(!regex.matches("fooAAA"));
    assert!(!regex.matches("barAAAfoo"));
}

#[test]
fn rejected_extra_repeat_still_moves_on() {
    // A further repeat that is rejected leaves the position after it; the search
    // goes on from there.
    let regex = Regex::matcher(Str::new("foo"))
        .followed_by(Regex::matcher(Str::new("A")).that_repeats(ZeroToInfinity))
        .followed_by(Regex::matcher(Str::new("bar")));
    assert!(regex.matches("fooXAbar"));
}

#[test]
fn whole_text_must_be_consumed() {
    let regex = Regex::matcher(Str::new("foo"));
    assert!(regex.matches("foo"));
    assert!(!regex.matches("foobar"));
    assert!(!regex.matches("fo"));
    assert!(!regex.matches(""));
}

#[test]
fn repeated_calls_on_one_chain_agree() {
    let regex = Regex::matcher(Str::new("a"))
        .that_repeats(ZeroToInfinity)
        .followed_by(Regex::matcher(Str::new("b")));
    for _ in 0..3 {
        assert!(regex.matches("aaab"));
        assert!(!regex.matches("aaa"));
        assert!(regex.matches("b"));
    }
}

#[test]
fn greatest_count_is_kept() {
    let regex = Regex::matcher(Any)
        .that_repeats(Between(1, 2))
        .followed_by(Regex::matcher(Str::new("b")));
    assert!(regex.matches("ab"));
    assert!(regex.matches("aab"));
    assert!(!regex.matches("aaab"));
    assert!(!regex.matches("b"));
}

#[test]
fn least_count_is_tried_first() {
    let regex = Regex::matcher(Str::new("a"))
        .that_repeats(ZeroToInfinity)
        .followed_by(Regex::matcher(Str::new("a")).that_repeats(Times::new(2)));
    assert!(regex.matches("aa"));
    assert!(regex.matches("aaaa"));
    assert!(!regex.matches("a"));
}

#[test]
fn repeat_of_nothing_ends() {
    let regex = Regex::matcher(Str::new("")).that_repeats(ZeroToInfinity);
    assert!(regex.matches(""));
    assert!(!regex.matches("x"));

    let regex = Regex::matcher(Str::new("")).that_repeats(Times::new(5));
    assert!(regex.matches(""));
    assert!(!regex.matches("x"));
}

#[test]
fn nested_repeats_at_one_position() {
    let regex = Regex::matcher(Str::new("x"))
        .that_repeats(ZeroToInfinity)
        .followed_by(Regex::matcher(Str::new("y")).that_repeats(Times::new(0)));
    assert!(regex.matches("x"));
    assert!(regex.matches(""));
    assert!(!regex.matches("xz"));
}

#[test]
fn empty_text_and_unbounded_repeat() {
    let regex = Regex::matcher(Str::new("A")).that_repeats(ZeroToInfinity);
    assert!(regex.matches(""));
    assert!(regex.matches("AAAAAA"));
}

#[test]
fn rejection_in_the_least_count_fails_the_node() {
    let regex = Regex::matcher(Str::new("a"))
        .that_repeats(Times::new(2))
        .followed_by(Regex::matcher(Any).that_repeats(ZeroToInfinity));
    assert!(regex.matches("aa"));
    assert!(regex.matches("aaxyz"));
    assert!(!regex.matches("abaa"));
}
