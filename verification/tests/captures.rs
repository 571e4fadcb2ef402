use testcall::regex::{captures_utf8, regex_match_bytes, regex_match_utf8};
use testcall::{CaptureKey, Captured, Failure};

#[test]
fn regex_captures() {
    let captures = captures_utf8(b"Hello World!", "(?P<first>[^ ]*) (?P<second>[^ ]*)").unwrap();

    assert_eq!(captures.index(0).unwrap(), "Hello World!");
    assert_eq!(captures.index(1).unwrap(), "Hello");
    assert_eq!(captures.index(2).unwrap(), "World!");
    assert_eq!(captures.name("first").unwrap(), "Hello");
    assert_eq!(captures.name("second").unwrap(), "World!");
}

#[test]
fn captures_by_key() {
    let captures = captures_utf8(b"Hello World!", "(?P<first>[^ ]*) (?P<second>[^ ]*)").unwrap();
    assert_eq!(captures.get(&CaptureKey::Index(2)).unwrap(), "World!");
    assert_eq!(captures.get(&CaptureKey::Name(String::from("first"))).unwrap(), "Hello");
    assert_eq!(captures.text(), "Hello World!");
}

#[test]
fn captures_absent_key() {
    let captures = captures_utf8(b"Hello World!", "(?P<first>[^ ]*) (?P<second>[^ ]*)").unwrap();
    assert_eq!(captures.index(3), Err(Failure::KeyNotFound));
    assert_eq!(captures.name("third"), Err(Failure::KeyNotFound));
    assert_eq!(captures.name(""), Err(Failure::KeyNotFound));
}

#[test]
fn captures_without_match_are_empty() {
    let captures = captures_utf8(b"Hello", "(?P<digits>[0-9]+)").unwrap();
    assert_eq!(captures.text(), "Hello");
    assert_eq!(captures.index(0), Err(Failure::KeyNotFound));
    assert_eq!(captures.index(1), Err(Failure::KeyNotFound));
    assert_eq!(captures.name("digits"), Err(Failure::KeyNotFound));
}

#[test]
fn captures_skip_group_that_took_no_part() {
    let captures = captures_utf8(b"abc123", "[a-z]+(?:(?P<numbers>[0-9]+)|(?P<letters>[A-Z]+))")
        .unwrap();
    assert_eq!(captures.index(0).unwrap(), "abc123");
    assert_eq!(captures.index(1).unwrap(), "123");
    assert_eq!(captures.name("numbers").unwrap(), "123");
    assert_eq!(captures.index(2), Err(Failure::KeyNotFound));
    assert_eq!(captures.name("letters"), Err(Failure::KeyNotFound));
}

#[test]
fn captures_are_leftmost() {
    let captures = captures_utf8(b"a1 b22 c333", "[a-z]([0-9]+)").unwrap();
    assert_eq!(captures.index(0).unwrap(), "a1");
    assert_eq!(captures.index(1).unwrap(), "1");
}

#[test]
fn captures_of_empty_match() {
    let captures = captures_utf8(b"abc", "(x*)").unwrap();
    assert_eq!(captures.index(0).unwrap(), "");
    assert_eq!(captures.index(1).unwrap(), "");
}

#[test]
fn captures_in_text_of_several_bytes_a_char() {
    let captures = captures_utf8("Greek: αβγδ!".as_bytes(), "(?P<word>\\p{Greek}+)").unwrap();
    assert_eq!(captures.index(0).unwrap(), "αβγδ");
    assert_eq!(captures.name("word").unwrap(), "αβγδ");
}

#[test]
fn captures_decode_lossily() {
    let captures = captures_utf8(b"ab\xffcd", "b(.)c").unwrap();
    assert_eq!(captures.text(), "ab\u{fffd}cd");
    assert_eq!(captures.index(0).unwrap(), "b\u{fffd}c");
    assert_eq!(captures.index(1).unwrap(), "\u{fffd}");
}

#[test]
fn captures_refuse_bad_pattern() {
    assert!(matches!(captures_utf8(b"Hello", "foo(bar"), Err(Failure::PatternError)));
}

#[test]
fn from_groups_indexes_positions_and_names() {
    let names = vec![None, Some(String::from("first")), None, Some(String::from("last"))];
    let spans = vec![Some((0, 5)), Some((0, 1)), None, Some((4, 5))];
    let captures = Captured::from_groups(String::from("toady"), &names, &spans);
    assert_eq!(captures.index(0).unwrap(), "toady");
    assert_eq!(captures.index(1).unwrap(), "t");
    assert_eq!(captures.index(2), Err(Failure::KeyNotFound));
    assert_eq!(captures.index(3).unwrap(), "y");
    assert_eq!(captures.index(4), Err(Failure::KeyNotFound));
    assert_eq!(captures.name("first").unwrap(), "t");
    assert_eq!(captures.name("last").unwrap(), "y");
    assert_eq!(captures.name("toady"), Err(Failure::KeyNotFound));
}

#[test]
fn from_groups_name_follows_last_group_of_that_name() {
    let names = vec![None, Some(String::from("n")), Some(String::from("n")), Some(String::from("n"))];
    let spans = vec![Some((0, 3)), Some((0, 1)), Some((1, 2)), None];
    let captures = Captured::from_groups(String::from("abc"), &names, &spans);
    assert_eq!(captures.name("n").unwrap(), "b");
    assert_eq!(captures.index(1).unwrap(), "a");
}

#[test]
fn from_groups_ignores_names_without_group() {
    let names = vec![None, Some(String::from("a")), Some(String::from("b"))];
    let spans = vec![Some((0, 2)), Some((1, 2))];
    let captures = Captured::from_groups(String::from("xy"), &names, &spans);
    assert_eq!(captures.name("a").unwrap(), "y");
    assert_eq!(captures.name("b"), Err(Failure::KeyNotFound));
}

#[test]
fn unmatched_holds_text_only() {
    let captures = Captured::unmatched(String::from("nothing"));
    assert_eq!(captures.text(), "nothing");
    assert_eq!(captures.index(0), Err(Failure::KeyNotFound));
}

#[test]
fn match_utf8_reports_outcome_and_text() {
    assert_eq!(regex_match_utf8(b"Hello World!", "W.rld"), Ok((true, String::from("Hello World!"))));
    assert_eq!(regex_match_utf8(b"Hello World!", "^World"), Ok((false, String::from("Hello World!"))));
    assert_eq!(regex_match_utf8(b"", ""), Ok((true, String::new())));
}

#[test]
fn match_utf8_decodes_lossily() {
    assert_eq!(regex_match_utf8(b"a\xffb", "a.b"), Ok((true, String::from("a\u{fffd}b"))));
    assert_eq!(regex_match_utf8(b"a\xffb", "^ab$"), Ok((false, String::from("a\u{fffd}b"))));
}

#[test]
fn match_utf8_refuses_bad_pattern() {
    assert_eq!(regex_match_utf8(b"Hello", "foo(bar"), Err(Failure::PatternError));
    assert_eq!(regex_match_utf8(b"Hello", "\\w{1000}"), Err(Failure::PatternError));
}

#[test]
fn match_bytes_sees_raw_bytes() {
    assert_eq!(
        regex_match_bytes(b"a\xffb", "(?-u)a\\xffb"),
        Ok((true, String::from("a\u{fffd}b")))
    );
    assert_eq!(regex_match_bytes(b"a\xffb", "^ab$"), Ok((false, String::from("a\u{fffd}b"))));
    assert_eq!(regex_match_bytes(b"Hello World!", "Hello World!"), Ok((true, String::from("Hello World!"))));
}

#[test]
fn match_bytes_refuses_bad_pattern() {
    assert_eq!(regex_match_bytes(b"Hello", "foo(bar"), Err(Failure::PatternError));
}

#[test]
fn try_from_groups_wants_ranges_that_fit() {
    let names = vec![None, Some(String::from("word"))];
    let text = || String::from("aβc");
    let captures = Captured::try_from_groups(text(), &names, &vec![Some((0, 4)), Some((1, 3))]).unwrap();
    assert_eq!(captures.index(0).unwrap(), "aβc");
    assert_eq!(captures.name("word").unwrap(), "β");
    assert!(Captured::try_from_groups(text(), &names, &vec![Some((0, 5))]).is_none());
    assert!(Captured::try_from_groups(text(), &names, &vec![Some((3, 1))]).is_none());
    assert!(Captured::try_from_groups(text(), &names, &vec![Some((0, 2))]).is_none());
    assert!(Captured::try_from_groups(text(), &names, &vec![None, Some((2, 4))]).is_none());
    assert!(Captured::try_from_groups(text(), &names, &vec![None, None]).is_some());
    assert!(Captured::try_from_groups(text(), &names, &Vec::new()).is_some());
    assert!(Captured::try_from_groups(text(), &names, &vec![Some((4, 4))]).is_some());
}
