//! What holds of normalization and confinement, for all paths.

use vstd::prelude::*;
use crate::path::{
    confined, has_parent, is_canonical, normal_form, root_len, step, walk, walk_concat, PartView,
};

verus! {

/// No component is a root or a prefix.
pub open spec fn is_relative(parts: Seq<PartView>) -> bool {
    forall|i: int|
        0 <= i < parts.len() ==> !((#[trigger] parts[i]) is Prefix) && !(parts[i] is RootDir)
}

/// How far below its start the path ends: names count up, `..` counts down.
pub open spec fn depth(parts: Seq<PartView>) -> int
    decreases parts.len(),
{
    if parts.len() == 0 {
        0
    } else {
        depth(parts.drop_last()) + match parts.last() {
            PartView::Normal(_) => 1int,
            PartView::ParentDir => -1int,
            _ => 0int,
        }
    }
}

/// On its way the path never gets more than `room` levels above its start.
pub open spec fn dips_at_most(parts: Seq<PartView>, room: int) -> bool {
    forall|k: int| 0 <= k <= parts.len() ==> #[trigger] depth(parts.take(k)) >= -room
}

/// A relative path that never climbs above where it starts.
pub open spec fn stays_inside(parts: Seq<PartView>) -> bool {
    is_relative(parts) && dips_at_most(parts, 0)
}

/// The shape of every normal form: no `.` and no `..`, a prefix only in front,
/// a root only in front or right behind the prefix.
pub open spec fn is_normal(path: Seq<PartView>) -> bool {
    forall|i: int|
        0 <= i < path.len() ==> {
            &&& !((#[trigger] path[i]) is CurDir)
            &&& !(path[i] is ParentDir)
            &&& (path[i] is Prefix ==> i == 0)
            &&& (path[i] is RootDir ==> i == 0 || (i == 1 && path[0] is Prefix))
        }
}

proof fn lemma_dips_shorter(parts: Seq<PartView>, room: int)
    requires
        parts.len() > 0,
        dips_at_most(parts, room),
    ensures
        dips_at_most(parts.drop_last(), room),
        depth(parts) >= -room,
        depth(parts.drop_last()) >= -room,
{
    assert forall|k: int| 0 <= k <= parts.drop_last().len() implies #[trigger] depth(
        parts.drop_last().take(k),
    ) >= -room by {
        assert(parts.drop_last().take(k) =~= parts.take(k));
    }
    assert(parts.take(parts.len() as int) =~= parts);
    assert(parts.take(parts.len() - 1) =~= parts.drop_last());
}

/// Whatever is normalized has the shape of a normal form.
pub proof fn normal_form_is_normal(parts: Seq<PartView>)
    ensures
        is_normal(normal_form(parts)),
    decreases parts.len(),
{
    if parts.len() > 0 {
        normal_form_is_normal(parts.drop_last());
    }
}

/// A path in normal form is its own normal form.
pub proof fn normal_is_fixed(path: Seq<PartView>)
    requires
        is_normal(path),
    ensures
        normal_form(path) == path,
    decreases path.len(),
{
    if path.len() > 0 {
        let shorter = path.drop_last();
        assert forall|i: int| 0 <= i < shorter.len() implies {
            &&& !((#[trigger] shorter[i]) is CurDir)
            &&& !(shorter[i] is ParentDir)
            &&& (shorter[i] is Prefix ==> i == 0)
            &&& (shorter[i] is RootDir ==> i == 0 || (i == 1 && shorter[0] is Prefix))
        } by {
            assert(shorter[i] == path[i]);
        }
        normal_is_fixed(shorter);
        assert(path.last() == path[path.len() - 1]);
        assert(step(shorter, path.last()) =~= path);
    } else {
        assert(path =~= Seq::<PartView>::empty());
    }
}

/// Normalizing twice is normalizing once.
pub proof fn normalize_is_idempotent(parts: Seq<PartView>)
    ensures
        normal_form(normal_form(parts)) == normal_form(parts),
{
    normal_form_is_normal(parts);
    normal_is_fixed(normal_form(parts));
}

/// A canonical path is in normal form.
pub proof fn canonical_is_normal(path: Seq<PartView>)
    requires
        is_canonical(path),
    ensures
        is_normal(path),
        normal_form(path) == path,
{
    assert(is_normal(path));
    normal_is_fixed(path);
}

/// A relative path that never climbs above its start is applied to any start
/// by appending its own normal form, which holds names only.
pub proof fn inside_walk_appends(start: Seq<PartView>, parts: Seq<PartView>)
    requires
        stays_inside(parts),
    ensures
        walk(start, parts) == start + normal_form(parts),
        normal_form(parts).len() == depth(parts),
        forall|i: int| 0 <= i < normal_form(parts).len() ==> (#[trigger] normal_form(parts)[i]) is Normal,
    decreases parts.len(),
{
    if parts.len() == 0 {
        assert(start + Seq::<PartView>::empty() =~= start);
    } else {
        lemma_dips_shorter(parts, 0);
        let shorter = parts.drop_last();
        assert(is_relative(shorter)) by {
            assert forall|i: int| 0 <= i < shorter.len() implies !((#[trigger] shorter[i]) is Prefix)
                && !(shorter[i] is RootDir) by {
                assert(shorter[i] == parts[i]);
            }
        }
        inside_walk_appends(start, shorter);
        let inner = normal_form(shorter);
        assert(parts.last() == parts[parts.len() - 1]);
        match parts.last() {
            PartView::ParentDir => {
                assert(inner.len() >= 1);
                assert(inner.last() is Normal);
                assert((start + inner).last() == inner.last());
                assert(has_parent(inner));
                assert(has_parent(start + inner));
                assert((start + inner).drop_last() =~= start + inner.drop_last());
            },
            PartView::Normal(_) => {
                assert((start + inner).push(parts.last()) =~= start + inner.push(parts.last()));
            },
            _ => {},
        }
    }
}

/// From a canonical root, a relative path that never climbs past the root
/// of the file system ends `depth` levels below the root it started from.
pub proof fn walk_from_root_counts(root: Seq<PartView>, parts: Seq<PartView>)
    requires
        is_canonical(root),
        is_relative(parts),
        dips_at_most(parts, root.len() - root_len(root)),
    ensures
        walk(root, parts).len() == root.len() + depth(parts),
        is_canonical(walk(root, parts)),
        root_len(walk(root, parts)) == root_len(root),
    decreases parts.len(),
{
    if parts.len() > 0 {
        lemma_dips_shorter(parts, root.len() - root_len(root));
        let shorter = parts.drop_last();
        assert(is_relative(shorter)) by {
            assert forall|i: int| 0 <= i < shorter.len() implies !((#[trigger] shorter[i]) is Prefix)
                && !(shorter[i] is RootDir) by {
                assert(shorter[i] == parts[i]);
            }
        }
        walk_from_root_counts(root, shorter);
        let reached = walk(root, shorter);
        assert(parts.last() == parts[parts.len() - 1]);
        match parts.last() {
            PartView::ParentDir => {
                assert(reached.len() >= root_len(root) + 1);
                assert(reached.last() == reached[reached.len() - 1]);
                assert(has_parent(reached));
            },
            _ => {},
        }
    }
}

/// A relative path that never climbs above the root is confined: it leads to
/// the root followed by the path's own normal form.
pub proof fn inside_is_confined(root: Seq<PartView>, relative: Seq<PartView>)
    requires
        is_canonical(root),
        stays_inside(relative),
    ensures
        confined(root, relative) == Some(root + normal_form(relative)),
        root.is_prefix_of(root + normal_form(relative)),
{
    walk_concat(Seq::empty(), root, relative);
    canonical_is_normal(root);
    inside_walk_appends(root, relative);
    assert((root + normal_form(relative)).subrange(0, root.len() as int) =~= root);
}

/// No component is `..`.
pub open spec fn has_no_parent_dir(parts: Seq<PartView>) -> bool {
    forall|i: int| 0 <= i < parts.len() ==> !((#[trigger] parts[i]) is ParentDir)
}

proof fn lemma_depth_without_parent_dir(parts: Seq<PartView>)
    requires
        has_no_parent_dir(parts),
    ensures
        depth(parts) >= 0,
    decreases parts.len(),
{
    if parts.len() > 0 {
        let shorter = parts.drop_last();
        assert forall|i: int| 0 <= i < shorter.len() implies !((#[trigger] shorter[i])
            is ParentDir) by {
            assert(shorter[i] == parts[i]);
        }
        lemma_depth_without_parent_dir(shorter);
        assert(parts.last() == parts[parts.len() - 1]);
    }
}

/// A relative path without `..` never climbs above where it starts.
pub proof fn without_parent_dir_stays_inside(parts: Seq<PartView>)
    requires
        is_relative(parts),
        has_no_parent_dir(parts),
    ensures
        stays_inside(parts),
{
    assert forall|k: int| 0 <= k <= parts.len() implies #[trigger] depth(parts.take(k)) >= 0 by {
        let front = parts.take(k);
        assert forall|i: int| 0 <= i < front.len() implies !((#[trigger] front[i]) is ParentDir) by {
            assert(front[i] == parts[i]);
        }
        lemma_depth_without_parent_dir(front);
    }
}

/// A relative path without `..` is confined, whatever the root: it leads to
/// a path that begins with the root.
pub proof fn without_parent_dir_is_confined(root: Seq<PartView>, relative: Seq<PartView>)
    requires
        is_canonical(root),
        is_relative(relative),
        has_no_parent_dir(relative),
    ensures
        confined(root, relative) == Some(root + normal_form(relative)),
        root.is_prefix_of(root + normal_form(relative)),
{
    without_parent_dir_stays_inside(relative);
    inside_is_confined(root, relative);
}

/// A relative path that ends above the root escapes, as long as on its way
/// it does not climb past the root of the file system.
pub proof fn above_root_escapes(root: Seq<PartView>, relative: Seq<PartView>)
    requires
        is_canonical(root),
        is_relative(relative),
        dips_at_most(relative, root.len() - root_len(root)),
        depth(relative) < 0,
    ensures
        confined(root, relative) is None,
{
    walk_concat(Seq::empty(), root, relative);
    canonical_is_normal(root);
    walk_from_root_counts(root, relative);
}

/// An absolute path forgets the root it is joined to: it is confined only
/// if it names a place at or below the root by itself.
pub proof fn absolute_forgets_root(root: Seq<PartView>, relative: Seq<PartView>)
    requires
        relative.len() > 0,
        relative[0] is Prefix || (relative[0] is RootDir && is_canonical(root) && root_len(root)
            == 1),
    ensures
        normal_form(root + relative) == normal_form(relative),
{
    let first = relative.take(1);
    let rest = relative.skip(1);
    let nothing = Seq::<PartView>::empty();
    assert(relative =~= first + rest);
    assert(first.drop_last() =~= nothing);
    assert(first.last() == relative[0]);
    walk_concat(nothing, root, relative);
    walk_concat(normal_form(root), first, rest);
    walk_concat(nothing, first, rest);
    if relative[0] is RootDir {
        canonical_is_normal(root);
    }
    assert(walk(normal_form(root), first.drop_last()) == normal_form(root));
    assert(walk(nothing, first.drop_last()) == nothing);
    assert(walk(normal_form(root), first) == step(normal_form(root), relative[0]));
    assert(walk(nothing, first) == step(nothing, relative[0]));
}

/// A `.` anywhere in a path changes nothing.
pub proof fn cur_dir_changes_nothing(
    root: Seq<PartView>,
    before: Seq<PartView>,
    after: Seq<PartView>,
)
    ensures
        normal_form(before + seq![PartView::CurDir] + after) == normal_form(before + after),
        confined(root, before + seq![PartView::CurDir] + after) == confined(root, before + after),
{
    lemma_cur_dir(Seq::empty(), before, after);
    lemma_cur_dir(Seq::empty(), root + before, after);
    assert(root + (before + seq![PartView::CurDir] + after) =~= (root + before)
        + seq![PartView::CurDir] + after);
    assert(root + (before + after) =~= (root + before) + after);
}

/// A name followed at once by `..` changes nothing, wherever the pair stands.
pub proof fn name_and_parent_cancel(
    root: Seq<PartView>,
    before: Seq<PartView>,
    name: Seq<u8>,
    after: Seq<PartView>,
)
    ensures
        normal_form(before + seq![PartView::Normal(name), PartView::ParentDir] + after)
            == normal_form(before + after),
        confined(root, before + seq![PartView::Normal(name), PartView::ParentDir] + after)
            == confined(root, before + after),
{
    lemma_pair(Seq::empty(), before, name, after);
    lemma_pair(Seq::empty(), root + before, name, after);
    assert(root + (before + seq![PartView::Normal(name), PartView::ParentDir] + after) =~= (root
        + before) + seq![PartView::Normal(name), PartView::ParentDir] + after);
    assert(root + (before + after) =~= (root + before) + after);
}

/// A confined path leads to the same place as its normal form.
pub proof fn normal_form_is_confined_alike(root: Seq<PartView>, relative: Seq<PartView>)
    requires
        is_canonical(root),
        stays_inside(relative),
    ensures
        stays_inside(normal_form(relative)),
        confined(root, normal_form(relative)) == confined(root, relative),
{
    inside_walk_appends(Seq::empty(), relative);
    let normal = normal_form(relative);
    without_parent_dir_stays_inside(normal);
    normalize_is_idempotent(relative);
    inside_is_confined(root, relative);
    inside_is_confined(root, normal);
}

proof fn lemma_cur_dir(start: Seq<PartView>, before: Seq<PartView>, after: Seq<PartView>)
    ensures
        walk(start, before + seq![PartView::CurDir] + after) == walk(start, before + after),
{
    let dot = seq![PartView::CurDir];
    walk_concat(start, before + dot, after);
    walk_concat(start, before, dot);
    walk_concat(start, before, after);
    assert(dot.drop_last() =~= Seq::<PartView>::empty());
    assert(walk(walk(start, before), dot) == step(walk(walk(start, before), dot.drop_last()), dot.last()));
}

proof fn lemma_pair(
    start: Seq<PartView>,
    before: Seq<PartView>,
    name: Seq<u8>,
    after: Seq<PartView>,
)
    ensures
        walk(start, before + seq![PartView::Normal(name), PartView::ParentDir] + after) == walk(
            start,
            before + after,
        ),
{
    let pair = seq![PartView::Normal(name), PartView::ParentDir];
    let here = walk(start, before);
    walk_concat(start, before + pair, after);
    walk_concat(start, before, pair);
    walk_concat(start, before, after);
    let one = seq![PartView::Normal(name)];
    assert(pair.drop_last() =~= one);
    assert(one.drop_last() =~= Seq::<PartView>::empty());
    assert(walk(here, one) == step(walk(here, one.drop_last()), one.last()));
    assert(walk(here, one) == here.push(PartView::Normal(name)));
    assert(walk(here, pair) == step(walk(here, pair.drop_last()), pair.last()));
    assert(here.push(PartView::Normal(name)).drop_last() =~= here);
}

} // verus!
