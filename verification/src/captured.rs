//! The result of applying a pattern: the text, and the byte range of every
//! capture, found by position or by name.

use vstd::prelude::*;
use vstd::string::StringSliceAdditionalSpecFns;
use vstd::utf8::*;
use crate::error::Failure;

verus! {

/// Identifies a capture: by position (0 is the whole match) or by name.
#[derive(Clone, Debug, PartialEq, Eq, Hash)]
pub enum CaptureKey {
    Index(usize),
    Name(String),
}

/// A capture key as a plain value.
pub enum KeyView {
    Index(int),
    Name(Seq<char>),
}

impl View for CaptureKey {
    type V = KeyView;

    open spec fn view(&self) -> KeyView {
        match self {
            CaptureKey::Index(index) => KeyView::Index(*index as int),
            CaptureKey::Name(name) => KeyView::Name(name@),
        }
    }
}

/// A byte range that can be cut out of the text: ordered, inside the encoded
/// text, and with both ends between characters.
pub open spec fn span_fits(text: Seq<char>, span: (usize, usize)) -> bool {
    let bytes = encode_utf8(text);
    &&& span.0 <= span.1 <= bytes.len()
    &&& is_char_boundary(bytes, span.0 as int)
    &&& is_char_boundary(bytes, span.1 as int)
}

/// Every range that is present can be cut out of the text.
pub open spec fn spans_fit(text: Seq<char>, spans: Seq<Option<(usize, usize)>>) -> bool {
    forall|i: int| 0 <= i < spans.len() ==> (#[trigger] spans[i] matches Some(span) ==> span_fits(text, span))
}

/// The part of the text that the byte range covers.
pub open spec fn slice_text(text: Seq<char>, span: (usize, usize)) -> Seq<char> {
    decode_utf8(encode_utf8(text).subrange(span.0 as int, span.1 as int))
}

/// The names as plain sequences.
pub open spec fn names_view(names: Seq<Option<String>>) -> Seq<Option<Seq<char>>> {
    Seq::new(
        names.len(),
        |i: int|
            match names[i] {
                Some(name) => Some(name@),
                None => None,
            },
    )
}

/// The last group below `upto` that carries `name` and took part in the
/// match, or -1 where there is none.
pub open spec fn last_named(
    names: Seq<Option<Seq<char>>>,
    spans: Seq<Option<(usize, usize)>>,
    name: Seq<char>,
    upto: int,
) -> int
    decreases upto,
{
    if upto <= 0 {
        -1
    } else if upto <= names.len() && upto <= spans.len() && names[upto - 1] == Some(name)
        && spans[upto - 1] is Some {
        upto - 1
    } else {
        last_named(names, spans, name, upto - 1)
    }
}

/// The ranges that a match gives: each group that took part under its
/// position, and each named one also under its name. A name maps to the same
/// range as the position of its group.
pub open spec fn capture_ranges(
    names: Seq<Option<Seq<char>>>,
    spans: Seq<Option<(usize, usize)>>,
) -> Map<KeyView, (usize, usize)> {
    Map::new(
        |key: KeyView|
            match key {
                KeyView::Index(index) => 0 <= index < spans.len() && spans[index] is Some,
                KeyView::Name(name) => last_named(names, spans, name, spans.len() as int) >= 0,
            },
        |key: KeyView|
            match key {
                KeyView::Index(index) => spans[index].unwrap(),
                KeyView::Name(name) => spans[last_named(
                    names,
                    spans,
                    name,
                    spans.len() as int,
                )].unwrap(),
            },
    )
}

/// Where a name is found, it is found at a group that carries it and took
/// part in the match.
pub proof fn last_named_is_a_group(
    names: Seq<Option<Seq<char>>>,
    spans: Seq<Option<(usize, usize)>>,
    name: Seq<char>,
    upto: int,
)
    requires
        last_named(names, spans, name, upto) >= 0,
    ensures
        ({
            let group = last_named(names, spans, name, upto);
            &&& group < upto
            &&& group < names.len()
            &&& group < spans.len()
            &&& names[group] == Some(name)
            &&& spans[group] is Some
        }),
    decreases upto,
{
    if upto > 0 && !(upto <= names.len() && upto <= spans.len() && names[upto - 1] == Some(name)
        && spans[upto - 1] is Some) {
        last_named_is_a_group(names, spans, name, upto - 1);
    }
}

/// A name maps to the same range as the position of a group that carries
/// it, and exactly the names of groups that took part are there.
pub proof fn name_maps_as_its_position(
    names: Seq<Option<Seq<char>>>,
    spans: Seq<Option<(usize, usize)>>,
    name: Seq<char>,
)
    ensures
        capture_ranges(names, spans).contains_key(KeyView::Name(name)) <==> exists|group: int|
            0 <= group < names.len() && group < spans.len() && #[trigger] names[group] == Some(
                name,
            ) && spans[group] is Some,
        capture_ranges(names, spans).contains_key(KeyView::Name(name)) ==> {
            let group = last_named(names, spans, name, spans.len() as int);
            &&& names[group] == Some(name)
            &&& capture_ranges(names, spans).contains_key(KeyView::Index(group))
            &&& capture_ranges(names, spans)[KeyView::Name(name)] == capture_ranges(
                names,
                spans,
            )[KeyView::Index(group)]
        },
{
    let upto = spans.len() as int;
    if last_named(names, spans, name, upto) >= 0 {
        last_named_is_a_group(names, spans, name, upto);
    }
    if exists|group: int|
        0 <= group < names.len() && group < spans.len() && #[trigger] names[group] == Some(name)
            && spans[group] is Some {
        let group = choose|group: int|
            0 <= group < names.len() && group < spans.len() && #[trigger] names[group] == Some(
                name,
            ) && spans[group] is Some;
        lemma_named_group_is_found(names, spans, name, upto, group);
    }
}

proof fn lemma_named_group_is_found(
    names: Seq<Option<Seq<char>>>,
    spans: Seq<Option<(usize, usize)>>,
    name: Seq<char>,
    upto: int,
    group: int,
)
    requires
        0 <= group < upto <= spans.len(),
        group < names.len(),
        names[group] == Some(name),
        spans[group] is Some,
    ensures
        last_named(names, spans, name, upto) >= group,
    decreases upto,
{
    if group < upto - 1 {
        lemma_named_group_is_found(names, spans, name, upto - 1, group);
    }
}

/// In a text of ASCII characters a byte range covers the characters at the
/// same positions.
pub proof fn slice_of_ascii_text(text: Seq<char>, span: (usize, usize))
    requires
        is_ascii_chars(text),
        span.0 <= span.1 <= text.len(),
    ensures
        span_fits(text, span),
        slice_text(text, span) == text.subrange(span.0 as int, span.1 as int),
{
    let part = text.subrange(span.0 as int, span.1 as int);
    let bytes = encode_utf8(text);
    is_ascii_chars_encode_utf8(text);
    is_ascii_chars_encode_utf8(part);
    encode_utf8_valid_utf8(text);
    assert(encode_utf8(part) =~= bytes.subrange(span.0 as int, span.1 as int));
    encode_utf8_decode_utf8(part);
    lemma_ascii_boundary(text, span.0 as int);
    lemma_ascii_boundary(text, span.1 as int);
}

proof fn lemma_ascii_boundary(text: Seq<char>, at: int)
    requires
        is_ascii_chars(text),
        0 <= at <= text.len(),
    ensures
        is_char_boundary(encode_utf8(text), at),
{
    let bytes = encode_utf8(text);
    is_ascii_chars_encode_utf8(text);
    encode_utf8_valid_utf8(text);
    if at < text.len() {
        is_char_boundary_iff_not_is_continuation_byte(bytes, at);
        let c = text[at];
        let b = bytes[at];
        assert(b == c as u8);
        assert(b < 128);
        assert(!is_continuation_byte(b)) by (bit_vector)
            requires
                b < 128,
        ;
    } else {
        is_char_boundary_start_end_of_seq(bytes);
    }
}

/// The ranges of a pattern application: those of the match, and none where
/// nothing matched.
pub open spec fn outcome_ranges(
    names: Seq<Option<Seq<char>>>,
    found: Option<Seq<Option<(usize, usize)>>>,
) -> Map<KeyView, (usize, usize)> {
    match found {
        Some(spans) => capture_ranges(names, spans),
        None => Map::empty(),
    }
}

/// One stored capture.
struct Entry {
    key: CaptureKey,
    start: usize,
    end: usize,
}

/// The map that a list of entries stands for: a later entry replaces an
/// earlier one with the same key.
spec fn ranges_of(entries: Seq<Entry>) -> Map<KeyView, (usize, usize)>
    decreases entries.len(),
{
    if entries.len() == 0 {
        Map::empty()
    } else {
        ranges_of(entries.drop_last()).insert(
            entries.last().key@,
            (entries.last().start, entries.last().end),
        )
    }
}

proof fn lemma_ranges_push(entries: Seq<Entry>, entry: Entry)
    ensures
        ranges_of(entries.push(entry)) == ranges_of(entries).insert(
            entry.key@,
            (entry.start, entry.end),
        ),
{
    assert(entries.push(entry).drop_last() =~= entries);
}

proof fn lemma_ranges_found(entries: Seq<Entry>, at: int, key: KeyView)
    requires
        0 <= at < entries.len(),
        entries[at].key@ == key,
        forall|j: int| at < j < entries.len() ==> entries[j].key@ != key,
    ensures
        ranges_of(entries).contains_key(key),
        ranges_of(entries)[key] == (entries[at].start, entries[at].end),
    decreases entries.len(),
{
    if at < entries.len() - 1 {
        lemma_ranges_found(entries.drop_last(), at, key);
    }
}

proof fn lemma_ranges_absent(entries: Seq<Entry>, key: KeyView)
    requires
        forall|j: int| 0 <= j < entries.len() ==> entries[j].key@ != key,
    ensures
        !ranges_of(entries).contains_key(key),
    decreases entries.len(),
{
    if entries.len() > 0 {
        lemma_ranges_absent(entries.drop_last(), key);
    }
}

proof fn lemma_ranges_come_from_entries(entries: Seq<Entry>, key: KeyView)
    requires
        ranges_of(entries).contains_key(key),
    ensures
        exists|i: int|
            0 <= i < entries.len() && ranges_of(entries)[key] == (
                (#[trigger] entries[i]).start,
                entries[i].end,
            ),
    decreases entries.len(),
{
    if entries.len() > 0 {
        if entries.last().key@ == key {
            assert(ranges_of(entries)[key] == (entries.last().start, entries.last().end));
            assert(entries[entries.len() - 1] == entries.last());
        } else {
            lemma_ranges_come_from_entries(entries.drop_last(), key);
            let i = choose|i: int|
                0 <= i < entries.drop_last().len() && ranges_of(entries.drop_last())[key] == (
                    (#[trigger] entries.drop_last()[i]).start,
                    entries.drop_last()[i].end,
                );
            assert(entries.drop_last()[i] == entries[i]);
        }
    }
}

/// The ranges stored once the positions below `positions` and the names of
/// the groups below `named` have been entered.
spec fn entered_ranges(
    names: Seq<Option<Seq<char>>>,
    spans: Seq<Option<(usize, usize)>>,
    positions: int,
    named: int,
) -> Map<KeyView, (usize, usize)> {
    Map::new(
        |key: KeyView|
            match key {
                KeyView::Index(index) => 0 <= index < positions && index < spans.len()
                    && spans[index] is Some,
                KeyView::Name(name) => last_named(names, spans, name, named) >= 0,
            },
        |key: KeyView|
            match key {
                KeyView::Index(index) => spans[index].unwrap(),
                KeyView::Name(name) => spans[last_named(names, spans, name, named)].unwrap(),
            },
    )
}

/// What a `Captured` stands for.
pub struct CapturedView {
    /// The text that the pattern was applied to.
    pub text: Seq<char>,
    /// The byte range in `text` of every capture.
    pub ranges: Map<KeyView, (usize, usize)>,
}

/// The captures of one pattern application. The text is held once; every
/// capture is a byte range into it.
pub struct Captured {
    text: String,
    entries: Vec<Entry>,
}

impl View for Captured {
    type V = CapturedView;

    closed spec fn view(&self) -> CapturedView {
        CapturedView { text: self.text@, ranges: ranges_of(self.entries@) }
    }
}

/// Whether two keys are the same.
fn same_key(a: &CaptureKey, b: &CaptureKey) -> (same: bool)
    ensures
        same == (a@ == b@),
{
    match (a, b) {
        (CaptureKey::Index(i), CaptureKey::Index(j)) => *i == *j,
        (CaptureKey::Name(s), CaptureKey::Name(t)) => *s == *t,
        _ => false,
    }
}

impl Captured {
    /// Every stored range can be cut out of the text.
    pub closed spec fn wf(&self) -> bool {
        forall|i: int|
            0 <= i < self.entries@.len() ==> span_fits(
                self.text@,
                ((#[trigger] self.entries@[i]).start, self.entries@[i].end),
            )
    }

    /// Every range of a well-formed value is a valid slice of its text.
    pub proof fn ranges_fit(&self, key: KeyView)
        requires
            self.wf(),
            self@.ranges.contains_key(key),
        ensures
            span_fits(self@.text, self@.ranges[key]),
    {
        lemma_ranges_come_from_entries(self.entries@, key);
    }

    /// The captures of a text in which nothing matched: none.
    pub fn unmatched(text: String) -> (c: Captured)
        ensures
            c.wf(),
            c@.text == text@,
            c@.ranges == Map::<KeyView, (usize, usize)>::empty(),
    {
        Captured { text, entries: Vec::new() }
    }

    /// The captures of a match: `spans` holds the byte range of each group
    /// that took part, `names` the name of each group that has one.
    pub fn from_groups(
        text: String,
        names: &Vec<Option<String>>,
        spans: &Vec<Option<(usize, usize)>>,
    ) -> (c: Captured)
        requires
            spans_fit(text@, spans@),
        ensures
            c.wf(),
            c@.text == text@,
            c@.ranges == capture_ranges(names_view(names@), spans@),
    {
        let ghost plain = names_view(names@);
        let mut entries: Vec<Entry> = Vec::new();
        let mut i: usize = 0;
        while i < spans.len()
            invariant
                i <= spans.len(),
                spans_fit(text@, spans@),
                forall|k: int|
                    0 <= k < entries@.len() ==> span_fits(
                        text@,
                        ((#[trigger] entries@[k]).start, entries@[k].end),
                    ),
                ranges_of(entries@) =~= entered_ranges(plain, spans@, i as int, 0),
            decreases spans.len() - i,
        {
            if let Some((start, end)) = spans[i] {
                let entry = Entry { key: CaptureKey::Index(i), start, end };
                proof {
                    lemma_ranges_push(entries@, entry);
                }
                entries.push(entry);
            }
            i += 1;
        }
        let mut j: usize = 0;
        while j < spans.len()
            invariant
                j <= spans.len(),
                plain == names_view(names@),
                spans_fit(text@, spans@),
                forall|k: int|
                    0 <= k < entries@.len() ==> span_fits(
                        text@,
                        ((#[trigger] entries@[k]).start, entries@[k].end),
                    ),
                ranges_of(entries@) =~= entered_ranges(plain, spans@, spans@.len() as int, j as int),
            decreases spans.len() - j,
        {
            if j < names.len() {
                if let Some(name) = &names[j] {
                    if let Some((start, end)) = spans[j] {
                        let entry = Entry { key: CaptureKey::Name(name.clone()), start, end };
                        proof {
                            lemma_ranges_push(entries@, entry);
                        }
                        entries.push(entry);
                    }
                }
            }
            proof {
                assert forall|name: Seq<char>|
                    last_named(plain, spans@, name, j + 1) == if j < plain.len() && plain[j as int]
                        == Some(name) && spans@[j as int] is Some {
                        j as int
                    } else {
                        #[trigger] last_named(plain, spans@, name, j as int)
                    } by {}
            }
            j += 1;
        }
        Captured { text, entries }
    }

    /// As `from_groups`, for ranges of which nothing is known: where one of
    /// them cannot be cut out of the text, there are no captures.
    pub fn try_from_groups(
        text: String,
        names: &Vec<Option<String>>,
        spans: &Vec<Option<(usize, usize)>>,
    ) -> (r: Option<Captured>)
        ensures
            r.is_some() == spans_fit(text@, spans@),
            r matches Some(c) ==> c.wf() && c@.text == text@ && c@.ranges == capture_ranges(
                names_view(names@),
                spans@,
            ),
    {
        let mut i: usize = 0;
        while i < spans.len()
            invariant
                i <= spans.len(),
                forall|k: int|
                    0 <= k < i ==> (#[trigger] spans@[k] matches Some(span) ==> span_fits(
                        text@,
                        span,
                    )),
            decreases spans.len() - i,
        {
            if let Some((start, end)) = spans[i] {
                let fits = start <= end && text.as_str().is_char_boundary(start)
                    && text.as_str().is_char_boundary(end);
                proof {
                    encode_utf8_valid_utf8(text@);
                }
                if !fits {
                    return None;
                }
            }
            i += 1;
        }
        Some(Captured::from_groups(text, names, spans))
    }

    /// The part of the text that the capture at position `index` covers;
    /// position 0 is the whole match.
    pub fn index(&self, index: usize) -> (r: Result<&str, Failure>)
        requires
            self.wf(),
        ensures
            match r {
                Ok(part) => self@.ranges.contains_key(KeyView::Index(index as int)) && part@
                    == slice_text(self@.text, self@.ranges[KeyView::Index(index as int)]),
                Err(e) => e == Failure::KeyNotFound && !self@.ranges.contains_key(
                    KeyView::Index(index as int),
                ),
            },
    {
        self.get(&CaptureKey::Index(index))
    }

    /// The part of the text that the capture called `name` covers.
    pub fn name(&self, name: &str) -> (r: Result<&str, Failure>)
        requires
            self.wf(),
        ensures
            match r {
                Ok(part) => self@.ranges.contains_key(KeyView::Name(name@)) && part@
                    == slice_text(self@.text, self@.ranges[KeyView::Name(name@)]),
                Err(e) => e == Failure::KeyNotFound && !self@.ranges.contains_key(
                    KeyView::Name(name@),
                ),
            },
    {
        self.get(&CaptureKey::Name(name.to_owned()))
    }

    /// The text that the pattern was applied to.
    pub fn text(&self) -> (text: &str)
        ensures
            text@ == self@.text,
    {
        self.text.as_str()
    }

    /// The part of the text that the capture under `key` covers.
    pub fn get(&self, key: &CaptureKey) -> (r: Result<&str, Failure>)
        requires
            self.wf(),
        ensures
            match r {
                Ok(part) => self@.ranges.contains_key(key@) && part@ == slice_text(
                    self@.text,
                    self@.ranges[key@],
                ),
                Err(e) => e == Failure::KeyNotFound && !self@.ranges.contains_key(key@),
            },
    {
        let mut i: usize = self.entries.len();
        while i > 0
            invariant
                self.wf(),
                i <= self.entries@.len(),
                forall|j: int| i <= j < self.entries@.len() ==> self.entries@[j].key@ != key@,
            decreases i,
        {
            i -= 1;
            if same_key(&self.entries[i].key, key) {
                let start = self.entries[i].start;
                let end = self.entries[i].end;
                proof {
                    lemma_ranges_found(self.entries@, i as int, key@);
                    encode_utf8_valid_utf8(self.text@);
                    lemma_inner_boundary(encode_utf8(self.text@), start as int, end as int);
                }
                let (head, _) = self.text.as_str().split_at(end);
                let (_, part) = head.split_at(start);
                proof {
                    let bytes = encode_utf8(self.text@);
                    assert(part.spec_bytes() =~= bytes.subrange(start as int, end as int));
                    encode_utf8_decode_utf8(part@);
                }
                return Ok(part);
            }
        }
        proof {
            lemma_ranges_absent(self.entries@, key@);
        }
        Err(Failure::KeyNotFound)
    }
}

/// A boundary of the whole text that lies inside a prefix cut at another
/// boundary is a boundary of that prefix.
proof fn lemma_inner_boundary(bytes: Seq<u8>, start: int, end: int)
    requires
        valid_utf8(bytes),
        0 <= start <= end <= bytes.len(),
        is_char_boundary(bytes, start),
        is_char_boundary(bytes, end),
    ensures
        valid_utf8(bytes.subrange(0, end)),
        is_char_boundary(bytes.subrange(0, end), start),
{
    let head = bytes.subrange(0, end);
    valid_utf8_split(bytes, end);
    if start < end {
        is_char_boundary_iff_not_is_continuation_byte(bytes, start);
        is_char_boundary_iff_not_is_continuation_byte(head, start);
    } else {
        is_char_boundary_start_end_of_seq(head);
    }
}

} // verus!
