use readex::matcher::any::Any;
use readex::matcher::string::Str;
use readex::matcher::string_matcher::StringMatcher;
use readex::matcher::Matcher;
use readex::repeat::times::Times;
use readex::repeat::zero_to_infinity::ZeroToInfinity;
use readex::repeat::Repeat;
use readex::string_pointer::StringPointer;

#[test]
fn any_success_matches() {
    let string = String::from("f");
    let matcher = Any;

    assert!(matcher.matches(string))
}

#[test]
fn string_success_matches() {
    let string = String::from("foo");
    let matcher = Str::new("foo");
    assert!(matcher.matches(string))
}

#[test]
fn string_success_matches_not() {
    let string = String::from("foo");
    let matcher = Str::new("bar");
    assert!(!matcher.matches(string))
}

#[test]
fn string_matcher_success_matches() {
    let string_pointer = StringPointer::from("foo");
    let matcher = StringMatcher::new("foo".to_string());
    assert!(matcher.matches(string_pointer))
}

#[test]
fn string_matcher_success_matches_not() {
    let string_pointer = StringPointer::from("foo");
    let matcher = StringMatcher::new("bar".to_string());
    assert!(!matcher.matches(string_pointer))
}

#[test]
fn string_matcher_reads_from_the_position() {
    let mut string_pointer = StringPointer::from("foobar");
    string_pointer.take_next(3).unwrap();
    assert!(StringMatcher::new("bar".to_string()).matches(string_pointer));

    let mut string_pointer = StringPointer::from("foobar");
    string_pointer.take_next(4).unwrap();
    assert!(!StringMatcher::new("bar".to_string()).matches(string_pointer));
}

#[test]
fn literal_length_and_acceptance() {
    let matcher = Str::new("foo");
    assert_eq!(3, matcher.checked_string_length());
    assert!(matcher.matches("foo".to_string()));
    assert!(!matcher.matches("fo".to_string()));
    assert!(!matcher.matches("fooo".to_string()));
    assert!(!matcher.matches("Foo".to_string()));

    let empty = Str::new("");
    assert_eq!(0, empty.checked_string_length());
    assert!(empty.matches(String::new()));
}

#[test]
fn wildcard_length_and_acceptance() {
    assert_eq!(1, Any.checked_string_length());
    assert!(Any.matches("a".to_string()));
    assert!(Any.matches("Z".to_string()));
    assert!(Any.matches(" ".to_string()));
}

#[test]
fn repeat_bounds() {
    let times = Times::new(3);
    assert_eq!(Some(3), times.get_minimum());
    assert_eq!(Some(3), times.get_maximum());
    assert_eq!(None, ZeroToInfinity.get_minimum());
    assert_eq!(None, ZeroToInfinity.get_maximum());
}
