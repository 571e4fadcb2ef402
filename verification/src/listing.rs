//! What a file or a directory tree holds, as a list, and how two such lists
//! compare.

use vstd::prelude::*;
use crate::path::{path_view, same_bytes, same_path, PartView, PathPart};

verus! {

/// One entry of a listing: where it is, relative to what was listed, and its
/// content where it is a file. A listed file is one entry with an empty path.
#[derive(Clone, Debug, PartialEq, Eq)]
pub struct Listed {
    pub path: Vec<PathPart>,
    /// The bytes of a file; none for a directory.
    pub content: Option<Vec<u8>>,
}

/// An entry as a plain value.
pub struct ListedView {
    pub path: Seq<PartView>,
    pub content: Option<Seq<u8>>,
}

impl View for Listed {
    type V = ListedView;

    open spec fn view(&self) -> ListedView {
        ListedView {
            path: path_view(self.path@),
            content: match self.content {
                Some(bytes) => Some(bytes@),
                None => None,
            },
        }
    }
}

/// The entries as plain values.
pub open spec fn listing_view(listing: Seq<Listed>) -> Seq<ListedView> {
    Seq::new(listing.len(), |i: int| listing[i]@)
}

/// The listing holds the entry.
pub open spec fn holds(listing: Seq<ListedView>, entry: ListedView) -> bool {
    exists|j: int| 0 <= j < listing.len() && #[trigger] listing[j] == entry
}

/// Everything in `part` is in `whole` too, at the same place and with the
/// same content.
pub open spec fn covers(whole: Seq<ListedView>, part: Seq<ListedView>) -> bool {
    forall|i: int| 0 <= i < part.len() ==> holds(whole, #[trigger] part[i])
}

/// The two hold exactly the same things.
pub open spec fn same_things(a: Seq<ListedView>, b: Seq<ListedView>) -> bool {
    covers(a, b) && covers(b, a)
}

/// What is at `path` in the listing agrees with `entry`: nothing in the
/// listing sits at the entry's place with another content.
pub open spec fn agrees_with(listing: Seq<ListedView>, entry: ListedView) -> bool {
    forall|j: int|
        0 <= j < listing.len() && (#[trigger] listing[j]).path == entry.path ==> listing[j].content
            == entry.content
}

/// Whatever is present in both is the same in both; what only one of them
/// holds does not count.
pub open spec fn same_where_both(a: Seq<ListedView>, b: Seq<ListedView>) -> bool {
    forall|i: int| 0 <= i < a.len() ==> agrees_with(b, #[trigger] a[i])
}

/// Whether the two contents are the same.
fn same_content(a: &Option<Vec<u8>>, b: &Option<Vec<u8>>) -> (same: bool)
    ensures
        same == (match (*a, *b) {
            (Some(x), Some(y)) => x@ == y@,
            (None, None) => true,
            _ => false,
        }),
{
    match (a, b) {
        (Some(x), Some(y)) => same_bytes(x, y),
        (None, None) => true,
        _ => false,
    }
}

/// Whether the listing holds the entry.
pub fn listed_in(listing: &Vec<Listed>, entry: &Listed) -> (found: bool)
    ensures
        found == holds(listing_view(listing@), entry@),
{
    let ghost plain = listing_view(listing@);
    let mut j: usize = 0;
    while j < listing.len()
        invariant
            j <= listing.len(),
            plain == listing_view(listing@),
            forall|k: int| 0 <= k < j ==> (#[trigger] plain[k]) != entry@,
        decreases listing.len() - j,
    {
        if same_path(&listing[j].path, &entry.path) && same_content(
            &listing[j].content,
            &entry.content,
        ) {
            assert(plain[j as int] == entry@);
            return true;
        }
        assert(plain[j as int] != entry@);
        j += 1;
    }
    false
}

/// Whether everything in `part` is in `whole` too.
pub fn covered(whole: &Vec<Listed>, part: &Vec<Listed>) -> (all: bool)
    ensures
        all == covers(listing_view(whole@), listing_view(part@)),
{
    let ghost plain = listing_view(part@);
    let mut i: usize = 0;
    while i < part.len()
        invariant
            i <= part.len(),
            plain == listing_view(part@),
            forall|k: int| 0 <= k < i ==> holds(listing_view(whole@), #[trigger] plain[k]),
        decreases part.len() - i,
    {
        if !listed_in(whole, &part[i]) {
            assert(plain[i as int] == part@[i as int]@);
            return false;
        }
        assert(plain[i as int] == part@[i as int]@);
        i += 1;
    }
    true
}

/// Whether the two listings hold exactly the same things.
pub fn equal_listings(a: &Vec<Listed>, b: &Vec<Listed>) -> (same: bool)
    ensures
        same == same_things(listing_view(a@), listing_view(b@)),
{
    covered(a, b) && covered(b, a)
}

/// Whether nothing in the listing sits at the entry's place with another
/// content.
fn agreeing(listing: &Vec<Listed>, entry: &Listed) -> (agrees: bool)
    ensures
        agrees == agrees_with(listing_view(listing@), entry@),
{
    let ghost plain = listing_view(listing@);
    let mut j: usize = 0;
    while j < listing.len()
        invariant
            j <= listing.len(),
            plain == listing_view(listing@),
            forall|k: int|
                0 <= k < j && (#[trigger] plain[k]).path == entry@.path ==> plain[k].content
                    == entry@.content,
        decreases listing.len() - j,
    {
        if same_path(&listing[j].path, &entry.path) && !same_content(
            &listing[j].content,
            &entry.content,
        ) {
            assert(plain[j as int].path == entry@.path && plain[j as int].content
                != entry@.content);
            return false;
        }
        assert(plain[j as int] == listing@[j as int]@);
        j += 1;
    }
    true
}

/// Whether whatever is present in both listings is the same in both.
pub fn agreeing_listings(a: &Vec<Listed>, b: &Vec<Listed>) -> (same: bool)
    ensures
        same == same_where_both(listing_view(a@), listing_view(b@)),
{
    let ghost plain = listing_view(a@);
    let mut i: usize = 0;
    while i < a.len()
        invariant
            i <= a.len(),
            plain == listing_view(a@),
            forall|k: int| 0 <= k < i ==> agrees_with(listing_view(b@), #[trigger] plain[k]),
        decreases a.len() - i,
    {
        if !agreeing(b, &a[i]) {
            assert(plain[i as int] == a@[i as int]@);
            return false;
        }
        assert(plain[i as int] == a@[i as int]@);
        i += 1;
    }
    true
}

/// Holding the same things goes both ways, and a listing holds the same
/// things as itself.
pub proof fn same_things_is_symmetric(a: Seq<ListedView>, b: Seq<ListedView>)
    ensures
        same_things(a, b) == same_things(b, a),
        same_things(a, a),
{
    assert forall|i: int| 0 <= i < a.len() implies holds(a, #[trigger] a[i]) by {
        assert(a[i] == a[i]);
    }
}

/// Agreeing where both hold something goes both ways.
pub proof fn same_where_both_is_symmetric(a: Seq<ListedView>, b: Seq<ListedView>)
    requires
        same_where_both(a, b),
    ensures
        same_where_both(b, a),
{
    assert forall|i: int| 0 <= i < b.len() implies agrees_with(a, #[trigger] b[i]) by {
        assert forall|j: int| 0 <= j < a.len() && (#[trigger] a[j]).path == b[i].path implies a[j].content
            == b[i].content by {
            assert(agrees_with(b, a[j]));
        }
    }
}

} // verus!
