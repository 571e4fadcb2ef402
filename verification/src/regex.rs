//! Pattern checks on captured bytes, and captures indexed by position or name.
//!
//! The pattern engine is the `regex` crate. What it computes is not proved
//! here: it is named, and the contracts below say exactly how each result of
//! this module is made from those names.

use vstd::prelude::*;
use vstd::utf8::*;
use crate::error::Failure;
use crate::captured::{names_view, outcome_ranges, spans_fit, Captured, KeyView};

verus! {

#[verifier::external_type_specification]
#[verifier::external_body]
pub struct ExRegex(::regex::Regex);

#[verifier::external_type_specification]
#[verifier::external_body]
pub struct ExRegexError(::regex::Error);

#[verifier::external_type_specification]
#[verifier::external_body]
pub struct ExCaptures<'h>(::regex::Captures<'h>);

#[verifier::external_type_specification]
#[verifier::external_body]
pub struct ExBytesRegex(::regex::bytes::Regex);

/// The pattern text that a compiled pattern was made from.
pub uninterp spec fn regex_source(re: ::regex::Regex) -> Seq<char>;

/// The pattern text that a compiled byte pattern was made from.
pub uninterp spec fn bytes_regex_source(re: ::regex::bytes::Regex) -> Seq<char>;

/// Whether the pattern text compiles as a pattern on text.
pub uninterp spec fn pattern_compiles(pattern: Seq<char>) -> bool;

/// Whether the pattern text compiles as a pattern on raw bytes.
pub uninterp spec fn bytes_pattern_compiles(pattern: Seq<char>) -> bool;

/// Whether the pattern matches anywhere in the raw bytes.
pub uninterp spec fn bytes_has_match(pattern: Seq<char>, input: Seq<u8>) -> bool;

/// The name of each group of the pattern, in the order of definition; group 0
/// is the whole match.
pub uninterp spec fn pattern_groups(pattern: Seq<char>) -> Seq<Option<Seq<char>>>;

/// The byte range of each group in the leftmost match of the pattern in the
/// text, `None` for a group that took no part; `None` where nothing matches.
pub uninterp spec fn first_match(pattern: Seq<char>, text: Seq<char>) -> Option<
    Seq<Option<(usize, usize)>>,
>;

/// The byte range of each group that a match holds.
pub uninterp spec fn group_spans(c: ::regex::Captures<'_>) -> Seq<Option<(usize, usize)>>;

/// The text that lossy decoding makes of the bytes.
pub uninterp spec fn lossy_text(bytes: Seq<u8>) -> Seq<char>;

/// Whether the pattern matches anywhere in the text: whether it has a
/// leftmost match there.
pub open spec fn has_match(pattern: Seq<char>, text: Seq<char>) -> bool {
    first_match(pattern, text).is_some()
}

/// What holds of the groups of every pattern: there is group 0, the whole
/// match, which has no name, and no two groups have the same name.
pub open spec fn well_named(groups: Seq<Option<Seq<char>>>) -> bool {
    &&& groups.len() >= 1
    &&& groups[0] is None
    &&& forall|i: int, j: int|
        0 <= i < j < groups.len() && (#[trigger] groups[i]) is Some ==> groups[i]
            != #[trigger] groups[j]
}

/// `regex::Regex::new`: compiles exactly the patterns for which
/// `pattern_compiles` holds, and the compiled pattern remembers its text.
///
/// This is the only maker of compiled patterns here. What the wrappers below
/// say of a compiled pattern by its text alone holds of patterns made this
/// way, with no options set.
#[verifier::external_body]
fn compile(pattern: &str) -> (r: Result<::regex::Regex, ::regex::Error>)
    ensures
        r.is_ok() == pattern_compiles(pattern@),
        r matches Ok(re) ==> regex_source(re) == pattern@,
{
    ::regex::Regex::new(pattern)
}

/// `regex::bytes::Regex::new`: as `compile`, for a pattern on raw bytes.
#[verifier::external_body]
fn compile_bytes(pattern: &str) -> (r: Result<::regex::bytes::Regex, ::regex::Error>)
    ensures
        r.is_ok() == bytes_pattern_compiles(pattern@),
        r matches Ok(re) ==> bytes_regex_source(re) == pattern@,
{
    ::regex::bytes::Regex::new(pattern)
}

/// `regex::Regex::is_match`: whether the pattern matches anywhere in the
/// text, which is whether `regex::Regex::captures` finds a match there.
#[verifier::external_body]
fn is_match(re: &::regex::Regex, text: &str) -> (b: bool)
    ensures
        b == first_match(regex_source(*re), text@).is_some(),
{
    re.is_match(text)
}

/// `regex::bytes::Regex::is_match`: whether the pattern matches anywhere in
/// the bytes.
#[verifier::external_body]
fn is_match_bytes(re: &::regex::bytes::Regex, input: &[u8]) -> (b: bool)
    ensures
        b == bytes_has_match(bytes_regex_source(*re), input@),
{
    re.is_match(input)
}

/// `regex::Regex::capture_names`: one entry per group of the pattern, in
/// order, with the group's name where it has one. The first is group 0,
/// which has no name, and no name is given twice.
#[verifier::external_body]
fn group_names(re: &::regex::Regex) -> (names: Vec<Option<String>>)
    ensures
        names_view(names@) == pattern_groups(regex_source(*re)),
        well_named(names_view(names@)),
{
    re.capture_names().map(|name| name.map(String::from)).collect()
}

/// `regex::Regex::captures`: the groups of the leftmost match, if there is
/// one. A match has one entry per group of the pattern. Group 0, the whole
/// match, always took part, and every range lies on character boundaries of
/// the text.
#[verifier::external_body]
fn find_captures<'h>(re: &::regex::Regex, text: &'h str) -> (r: Option<::regex::Captures<'h>>)
    ensures
        match r {
            Some(c) => {
                &&& first_match(regex_source(*re), text@) == Some(group_spans(c))
                &&& group_spans(c).len() == pattern_groups(regex_source(*re)).len()
                &&& group_spans(c).len() >= 1
                &&& group_spans(c)[0] is Some
                &&& spans_fit(text@, group_spans(c))
            },
            None => first_match(regex_source(*re), text@) is None,
        },
{
    re.captures(text)
}

/// `regex::Captures::len`: the number of groups, whether they took part or not.
#[verifier::external_body]
fn group_count(c: &::regex::Captures<'_>) -> (n: usize)
    ensures
        n == group_spans(*c).len(),
{
    c.len()
}

/// `regex::Captures::get`: the byte range of group `i`, `None` where the
/// group took no part or `i` is no group.
#[verifier::external_body]
fn group_span(c: &::regex::Captures<'_>, i: usize) -> (r: Option<(usize, usize)>)
    ensures
        r == if i < group_spans(*c).len() {
            group_spans(*c)[i as int]
        } else {
            None
        },
{
    c.get(i).map(|m| (m.start(), m.end()))
}

/// `String::from_utf8_lossy`: valid UTF-8 is decoded as it stands; anything
/// else is decoded with replacement characters, never refused.
#[verifier::external_body]
fn decode_lossy(input: &[u8]) -> (text: String)
    ensures
        text@ == lossy_text(input@),
        valid_utf8(input@) ==> text@ == decode_utf8(input@),
{
    String::from_utf8_lossy(input).into_owned()
}

/// Whether `regex` matches the lossily decoded `input`, together with the
/// decoded text for diagnostics. A pattern that does not compile is refused.
pub fn regex_match_utf8(input: &[u8], regex: &str) -> (r: Result<(bool, String), Failure>)
    ensures
        match r {
            Ok(found) => {
                &&& pattern_compiles(regex@)
                &&& found.1@ == lossy_text(input@)
                &&& valid_utf8(input@) ==> found.1@ == decode_utf8(input@)
                &&& found.0 == has_match(regex@, lossy_text(input@))
            },
            Err(e) => e == Failure::PatternError && !pattern_compiles(regex@),
        },
{
    match compile(regex) {
        Ok(re) => {
            let text = decode_lossy(input);
            let found = is_match(&re, text.as_str());
            Ok((found, text))
        },
        Err(_) => Err(Failure::PatternError),
    }
}

/// Whether `regex` matches the raw `input`, together with the lossily decoded
/// input for diagnostics. A pattern that does not compile is refused.
pub fn regex_match_bytes(input: &[u8], regex: &str) -> (r: Result<(bool, String), Failure>)
    ensures
        match r {
            Ok(found) => {
                &&& bytes_pattern_compiles(regex@)
                &&& found.1@ == lossy_text(input@)
                &&& valid_utf8(input@) ==> found.1@ == decode_utf8(input@)
                &&& found.0 == bytes_has_match(regex@, input@)
            },
            Err(e) => e == Failure::PatternError && !bytes_pattern_compiles(regex@),
        },
{
    match compile_bytes(regex) {
        Ok(re) => {
            let found = is_match_bytes(&re, input);
            Ok((found, decode_lossy(input)))
        },
        Err(_) => Err(Failure::PatternError),
    }
}

/// The byte ranges of the groups of the leftmost match of `re` in `text`.
fn match_spans(re: &::regex::Regex, text: &str) -> (r: Option<Vec<Option<(usize, usize)>>>)
    ensures
        match r {
            Some(spans) => {
                &&& first_match(regex_source(*re), text@) == Some(spans@)
                &&& spans@.len() == pattern_groups(regex_source(*re)).len()
                &&& spans@.len() >= 1
                &&& spans@[0] is Some
                &&& spans_fit(text@, spans@)
            },
            None => first_match(regex_source(*re), text@) is None,
        },
{
    match find_captures(re, text) {
        Some(c) => {
            let count = group_count(&c);
            let mut spans: Vec<Option<(usize, usize)>> = Vec::new();
            let mut i: usize = 0;
            while i < count
                invariant
                    i <= count,
                    count == group_spans(c).len(),
                    spans@ =~= group_spans(c).subrange(0, i as int),
                decreases count - i,
            {
                spans.push(group_span(&c, i));
                i += 1;
            }
            assert(spans@ =~= group_spans(c));
            Some(spans)
        },
        None => None,
    }
}

/// Whether `r` is the outcome of capturing with `regex` in `input`.
///
/// A pattern that compiles gives captures, and no other does. The captures
/// hold the lossily decoded input as their text, which for valid UTF-8 is
/// the input decoded. Their ranges are those of the leftmost match, by
/// position and by name, and none where nothing matches. Position 0, the
/// whole match, is there exactly where something matches; every position is
/// that of a group of the pattern, and every name that of the one group that
/// carries it.
pub open spec fn is_captures_of(r: Result<Captured, Failure>, input: Seq<u8>, regex: Seq<char>)
    -> bool {
    match r {
        Ok(c) => {
            &&& pattern_compiles(regex)
            &&& c.wf()
            &&& c@.text == lossy_text(input)
            &&& valid_utf8(input) ==> c@.text == decode_utf8(input)
            &&& well_named(pattern_groups(regex))
            &&& forall|index: int| #[trigger]
                c@.ranges.contains_key(KeyView::Index(index)) ==> 0 <= index < pattern_groups(
                    regex,
                ).len()
            &&& c@.ranges == outcome_ranges(
                pattern_groups(regex),
                first_match(regex, lossy_text(input)),
            )
            &&& c@.ranges.contains_key(KeyView::Index(0)) == first_match(
                regex,
                lossy_text(input),
            ).is_some()
        },
        Err(e) => e == Failure::PatternError && !pattern_compiles(regex),
    }
}

/// The captures of the leftmost match of `regex` in the lossily decoded
/// `input`: every group that took part, under its position and under its
/// name. Where nothing matches there are no captures. A pattern that does not
/// compile is refused.
pub fn captures_utf8(input: &[u8], regex: &str) -> (r: Result<Captured, Failure>)
    ensures
        is_captures_of(r, input@, regex@),
{
    match compile(regex) {
        Ok(re) => {
            let text = decode_lossy(input);
            let names = group_names(&re);
            match match_spans(&re, text.as_str()) {
                Some(spans) => Ok(Captured::from_groups(text, &names, &spans)),
                None => Ok(Captured::unmatched(text)),
            }
        },
        Err(_) => Err(Failure::PatternError),
    }
}

} // verus!
