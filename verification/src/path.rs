//! Paths as sequences of components, and their lexical normalization.
//!
//! Nothing here touches the disk: a path is what its components say.

use vstd::prelude::*;
use crate::error::Failure;

verus! {

/// One component of a path.
#[derive(Clone, Debug, PartialEq, Eq, Hash)]
pub enum PathPart {
    /// A volume or drive prefix, as some systems have one.
    Prefix(Vec<u8>),
    /// The root directory.
    RootDir,
    /// `.`
    CurDir,
    /// `..`
    ParentDir,
    /// A named entry.
    Normal(Vec<u8>),
}

/// A component as a plain value.
pub enum PartView {
    Prefix(Seq<u8>),
    RootDir,
    CurDir,
    ParentDir,
    Normal(Seq<u8>),
}

impl View for PathPart {
    type V = PartView;

    open spec fn view(&self) -> PartView {
        match self {
            PathPart::Prefix(name) => PartView::Prefix(name@),
            PathPart::RootDir => PartView::RootDir,
            PathPart::CurDir => PartView::CurDir,
            PathPart::ParentDir => PartView::ParentDir,
            PathPart::Normal(name) => PartView::Normal(name@),
        }
    }
}

/// The components as plain values.
pub open spec fn path_view(parts: Seq<PathPart>) -> Seq<PartView> {
    Seq::new(parts.len(), |i: int| parts[i]@)
}

/// Whether the last component can be taken off: the path is not empty and
/// does not end in a root or a prefix.
pub open spec fn has_parent(path: Seq<PartView>) -> bool {
    path.len() > 0 && !(path.last() is RootDir) && !(path.last() is Prefix)
}

/// The path after one more component has been applied to it.
///
/// A name is appended and `.` changes nothing. `..` takes the last component
/// off where there is one to take, and is dropped otherwise. A root starts
/// the path over, keeping a leading prefix; a prefix starts it over entirely.
pub open spec fn step(path: Seq<PartView>, part: PartView) -> Seq<PartView> {
    match part {
        PartView::Prefix(_) => seq![part],
        PartView::RootDir => if path.len() > 0 && path[0] is Prefix {
            seq![path[0], part]
        } else {
            seq![part]
        },
        PartView::CurDir => path,
        PartView::ParentDir => if has_parent(path) {
            path.drop_last()
        } else {
            path
        },
        PartView::Normal(_) => path.push(part),
    }
}

/// The path after all of `parts`, in order, have been applied to `start`.
pub open spec fn walk(start: Seq<PartView>, parts: Seq<PartView>) -> Seq<PartView>
    decreases parts.len(),
{
    if parts.len() == 0 {
        start
    } else {
        step(walk(start, parts.drop_last()), parts.last())
    }
}

/// The normal form of a path: its components applied to the empty path.
pub open spec fn normal_form(parts: Seq<PartView>) -> Seq<PartView> {
    walk(Seq::empty(), parts)
}

/// The number of leading components that make a path absolute.
pub open spec fn root_len(path: Seq<PartView>) -> int {
    if path.len() > 0 && path[0] is Prefix {
        2
    } else {
        1
    }
}

/// An absolute path in normal form: an optional prefix, the root, then names.
pub open spec fn is_canonical(path: Seq<PartView>) -> bool {
    &&& path.len() >= root_len(path)
    &&& path[root_len(path) - 1] is RootDir
    &&& forall|i: int| root_len(path) <= i < path.len() ==> (#[trigger] path[i]) is Normal
}

/// A copy of the bytes.
pub(crate) fn copy_bytes(bytes: &Vec<u8>) -> (copy: Vec<u8>)
    ensures
        copy@ == bytes@,
{
    let mut copy: Vec<u8> = Vec::new();
    let mut i: usize = 0;
    while i < bytes.len()
        invariant
            i <= bytes.len(),
            copy@ =~= bytes@.subrange(0, i as int),
        decreases bytes.len() - i,
    {
        copy.push(bytes[i]);
        i += 1;
    }
    assert(copy@ =~= bytes@);
    copy
}

/// Whether the two hold the same bytes.
pub(crate) fn same_bytes(a: &Vec<u8>, b: &Vec<u8>) -> (same: bool)
    ensures
        same == (a@ == b@),
{
    if a.len() != b.len() {
        return false;
    }
    let mut i: usize = 0;
    while i < a.len()
        invariant
            i <= a.len(),
            a.len() == b.len(),
            a@.subrange(0, i as int) =~= b@.subrange(0, i as int),
        decreases a.len() - i,
    {
        if a[i] != b[i] {
            return false;
        }
        assert(a@.subrange(0, i + 1) =~= a@.subrange(0, i as int).push(a@[i as int]));
        assert(b@.subrange(0, i + 1) =~= b@.subrange(0, i as int).push(b@[i as int]));
        i += 1;
    }
    assert(a@ =~= a@.subrange(0, a.len() as int));
    assert(b@ =~= b@.subrange(0, b.len() as int));
    true
}

impl PathPart {
    /// A copy of the component.
    pub fn duplicate(&self) -> (copy: PathPart)
        ensures
            copy@ == self@,
    {
        match self {
            PathPart::Prefix(name) => PathPart::Prefix(copy_bytes(name)),
            PathPart::RootDir => PathPart::RootDir,
            PathPart::CurDir => PathPart::CurDir,
            PathPart::ParentDir => PathPart::ParentDir,
            PathPart::Normal(name) => PathPart::Normal(copy_bytes(name)),
        }
    }

    /// Whether the two components are the same.
    pub fn same(&self, other: &PathPart) -> (same: bool)
        ensures
            same == (self@ == other@),
    {
        match (self, other) {
            (PathPart::Prefix(a), PathPart::Prefix(b)) => same_bytes(a, b),
            (PathPart::RootDir, PathPart::RootDir) => true,
            (PathPart::CurDir, PathPart::CurDir) => true,
            (PathPart::ParentDir, PathPart::ParentDir) => true,
            (PathPart::Normal(a), PathPart::Normal(b)) => same_bytes(a, b),
            _ => false,
        }
    }
}

/// Applies one more component to the path.
pub fn normalize_step(path: &mut Vec<PathPart>, part: &PathPart)
    ensures
        path_view(final(path)@) == step(path_view(old(path)@), part@),
{
    let ghost before = path_view(path@);
    match part {
        PathPart::Prefix(_) => {
            path.clear();
            path.push(part.duplicate());
        },
        PathPart::RootDir => {
            let keep = path.len() > 0 && matches!(path[0], PathPart::Prefix(_));
            if keep {
                path.truncate(1);
            } else {
                path.clear();
            }
            path.push(PathPart::RootDir);
        },
        PathPart::CurDir => {},
        PathPart::ParentDir => {
            let n = path.len();
            if n > 0 {
                let ends_in_root = matches!(path[n - 1], PathPart::RootDir | PathPart::Prefix(_));
                if !ends_in_root {
                    path.pop();
                }
            }
        },
        PathPart::Normal(_) => {
            path.push(part.duplicate());
        },
    }
    assert(path_view(path@) =~= step(before, part@));
}

/// Applying `first` and then `second` is applying the two in a row.
pub proof fn walk_concat(start: Seq<PartView>, first: Seq<PartView>, second: Seq<PartView>)
    ensures
        walk(start, first + second) == walk(walk(start, first), second),
    decreases second.len(),
{
    if second.len() == 0 {
        assert(first + second =~= first);
    } else {
        walk_concat(start, first, second.drop_last());
        assert((first + second).drop_last() =~= first + second.drop_last());
    }
}

/// Applies all of `parts`, in order, to `start`.
pub fn walk_onto(start: Vec<PathPart>, parts: &Vec<PathPart>) -> (path: Vec<PathPart>)
    ensures
        path_view(path@) == walk(path_view(start@), path_view(parts@)),
{
    let ghost all = path_view(parts@);
    let ghost origin = path_view(start@);
    let mut path = start;
    let mut i: usize = 0;
    while i < parts.len()
        invariant
            i <= parts.len(),
            all == path_view(parts@),
            path_view(path@) == walk(origin, all.take(i as int)),
        decreases parts.len() - i,
    {
        normalize_step(&mut path, &parts[i]);
        proof {
            assert(all.take(i + 1).drop_last() =~= all.take(i as int));
        }
        i += 1;
    }
    assert(all.take(parts.len() as int) =~= all);
    path
}

/// The normal form of the path: no `.`, no `..`, and what came before a root
/// or a prefix forgotten.
pub fn normalize(parts: &Vec<PathPart>) -> (path: Vec<PathPart>)
    ensures
        path_view(path@) == normal_form(path_view(parts@)),
{
    let start: Vec<PathPart> = Vec::new();
    assert(path_view(start@) =~= Seq::<PartView>::empty());
    walk_onto(start, parts)
}

/// Whether `path` begins with all the components of `base`.
pub fn starts_with(path: &Vec<PathPart>, base: &Vec<PathPart>) -> (inside: bool)
    ensures
        inside == path_view(base@).is_prefix_of(path_view(path@)),
{
    if base.len() > path.len() {
        return false;
    }
    let mut i: usize = 0;
    while i < base.len()
        invariant
            i <= base.len() <= path.len(),
            forall|k: int| 0 <= k < i ==> base@[k]@ == path@[k]@,
        decreases base.len() - i,
    {
        if !base[i].same(&path[i]) {
            assert(path_view(base@)[i as int] != path_view(path@).subrange(0, base.len() as int)[i as int]);
            return false;
        }
        i += 1;
    }
    assert(path_view(base@) =~= path_view(path@).subrange(0, base.len() as int));
    true
}

/// Whether the components make a canonical absolute path: an optional
/// prefix, the root, then names only.
pub fn canonical(parts: &Vec<PathPart>) -> (is: bool)
    ensures
        is == is_canonical(path_view(parts@)),
{
    let ghost plain = path_view(parts@);
    if parts.len() == 0 {
        return false;
    }
    let lead: usize = if matches!(parts[0], PathPart::Prefix(_)) {
        2
    } else {
        1
    };
    if parts.len() < lead {
        return false;
    }
    if !matches!(parts[lead - 1], PathPart::RootDir) {
        assert(!(plain[lead - 1] is RootDir));
        return false;
    }
    let mut i: usize = lead;
    while i < parts.len()
        invariant
            lead <= i <= parts.len(),
            plain == path_view(parts@),
            lead == root_len(plain),
            plain[lead - 1] is RootDir,
            forall|k: int| lead <= k < i ==> (#[trigger] plain[k]) is Normal,
        decreases parts.len() - i,
    {
        if !matches!(parts[i], PathPart::Normal(_)) {
            assert(!(plain[i as int] is Normal));
            return false;
        }
        i += 1;
    }
    true
}

/// Whether the two paths have the same components.
pub fn same_path(a: &Vec<PathPart>, b: &Vec<PathPart>) -> (same: bool)
    ensures
        same == (path_view(a@) == path_view(b@)),
{
    if a.len() != b.len() {
        assert(path_view(a@).len() != path_view(b@).len());
        return false;
    }
    let same = starts_with(a, b);
    proof {
        let whole = path_view(a@);
        assert(whole.subrange(0, whole.len() as int) =~= whole);
    }
    same
}

/// Where `relative` leads from `root` when read as it stands, without the
/// disk, if that is at or below `root`.
///
/// The two are joined and normalized; the result counts as inside when it
/// begins with all the components of `root`, the root itself included.
pub open spec fn confined(root: Seq<PartView>, relative: Seq<PartView>) -> Option<Seq<PartView>> {
    let full = normal_form(root + relative);
    if root.is_prefix_of(full) {
        Some(full)
    } else {
        None
    }
}

/// The normalized path that `relative` leads to from `root`, refused where
/// it leaves `root`. The path is read as it stands, without the disk: a link
/// is a name like any other. `confine_resolving` follows links.
pub fn confine(root: &Vec<PathPart>, relative: &Vec<PathPart>) -> (r: Result<Vec<PathPart>, Failure>)
    ensures
        match r {
            Ok(path) => confined(path_view(root@), path_view(relative@)) == Some(path_view(path@)),
            Err(e) => e == Failure::Escape && confined(path_view(root@), path_view(relative@))
                is None,
        },
{
    let full = walk_onto(normalize(root), relative);
    proof {
        walk_concat(Seq::empty(), path_view(root@), path_view(relative@));
    }
    if starts_with(&full, root) {
        Ok(full)
    } else {
        Err(Failure::Escape)
    }
}

/// What one component may lead to while links are resolved: the path after
/// the component has been applied, or what `resolve` made of that path.
pub open spec fn resolved_step<F: Fn(&Vec<PathPart>) -> Option<Vec<PathPart>>>(
    resolve: F,
    before: Seq<PartView>,
    part: PartView,
    after: Seq<PartView>,
) -> bool {
    exists|stepped: Vec<PathPart>, found: Option<Vec<PathPart>>|
        {
            &&& path_view(stepped@) == step(before, part)
            &&& #[trigger] call_ensures(resolve, (&stepped,), found)
            &&& after == match found {
                Some(target) => path_view(target@),
                None => path_view(stepped@),
            }
        }
}

/// Where `parts` may lead from `start` while links are resolved after every
/// component.
pub open spec fn resolved_walk<F: Fn(&Vec<PathPart>) -> Option<Vec<PathPart>>>(
    resolve: F,
    start: Seq<PartView>,
    parts: Seq<PartView>,
    end: Seq<PartView>,
) -> bool
    decreases parts.len(),
{
    if parts.len() == 0 {
        end == start
    } else {
        exists|mid: Seq<PartView>|
            resolved_walk(resolve, start, parts.drop_last(), mid) && #[trigger] resolved_step(
                resolve,
                mid,
                parts.last(),
                end,
            )
    }
}

/// Applies all of `parts`, in order, to `start`, and after each one asks
/// `resolve` for the real path of what has been reached. Where `resolve`
/// knows one, as for a path that exists on disk, the walk goes on from there;
/// where it knows none, the walk goes on from the path as it stands.
pub fn walk_resolving<F: Fn(&Vec<PathPart>) -> Option<Vec<PathPart>>>(
    start: Vec<PathPart>,
    parts: &Vec<PathPart>,
    resolve: &F,
) -> (path: Vec<PathPart>)
    requires
        forall|any: &Vec<PathPart>| #[trigger] call_requires(*resolve, (any,)),
    ensures
        resolved_walk(*resolve, path_view(start@), path_view(parts@), path_view(path@)),
{
    let ghost all = path_view(parts@);
    let ghost origin = path_view(start@);
    let mut path = start;
    let mut i: usize = 0;
    assert(all.take(0).len() == 0);
    while i < parts.len()
        invariant
            i <= parts.len(),
            all == path_view(parts@),
            forall|any: &Vec<PathPart>| #[trigger] call_requires(*resolve, (any,)),
            resolved_walk(*resolve, origin, all.take(i as int), path_view(path@)),
        decreases parts.len() - i,
    {
        let ghost mid = path_view(path@);
        normalize_step(&mut path, &parts[i]);
        let ghost stepped = path;
        let found = resolve(&path);
        let ghost answer = found;
        match found {
            Some(target) => {
                path = target;
            },
            None => {},
        }
        proof {
            let longer = all.take(i + 1);
            assert(longer.drop_last() =~= all.take(i as int));
            assert(longer.last() == parts@[i as int]@);
            assert(call_ensures(*resolve, (&stepped,), answer));
            assert(resolved_step(*resolve, mid, longer.last(), path_view(path@)));
            assert(resolved_walk(*resolve, origin, longer.drop_last(), mid));
            assert(resolved_walk(*resolve, origin, longer, path_view(path@)));
        }
        i += 1;
    }
    assert(all.take(parts.len() as int) =~= all);
    path
}

/// The path that `relative` leads to from `root` while links are resolved
/// after every component, refused where it ends outside `root`.
///
/// Whatever `resolve` answers, a path that is returned begins with all the
/// components of `root`.
pub fn confine_resolving<F: Fn(&Vec<PathPart>) -> Option<Vec<PathPart>>>(
    root: &Vec<PathPart>,
    relative: &Vec<PathPart>,
    resolve: &F,
) -> (r: Result<Vec<PathPart>, Failure>)
    requires
        forall|any: &Vec<PathPart>| #[trigger] call_requires(*resolve, (any,)),
    ensures
        match r {
            Ok(path) => {
                &&& resolved_walk(
                    *resolve,
                    normal_form(path_view(root@)),
                    path_view(relative@),
                    path_view(path@),
                )
                &&& path_view(root@).is_prefix_of(path_view(path@))
            },
            Err(e) => {
                &&& e == Failure::Escape
                &&& exists|end: Seq<PartView>|
                    #[trigger] resolved_walk(
                        *resolve,
                        normal_form(path_view(root@)),
                        path_view(relative@),
                        end,
                    ) && !path_view(root@).is_prefix_of(end)
            },
        },
{
    let full = walk_resolving(normalize(root), relative, resolve);
    if starts_with(&full, root) {
        Ok(full)
    } else {
        Err(Failure::Escape)
    }
}

/// Whether `resolve` changes no path: where it knows a real path, that is
/// the path it was asked about. So it is on a disk without links, and on
/// one where nothing exists.
pub open spec fn changes_nothing<F: Fn(&Vec<PathPart>) -> Option<Vec<PathPart>>>(
    resolve: F,
) -> bool {
    forall|any: &Vec<PathPart>, found: Option<Vec<PathPart>>|
        #[trigger] call_ensures(resolve, (any,), found) ==> (found matches Some(target)
            ==> path_view(target@) == path_view(any@))
}

/// Where `resolve` changes no path, the walk is the lexical one.
pub proof fn unresolved_walk_is_lexical<F: Fn(&Vec<PathPart>) -> Option<Vec<PathPart>>>(
    resolve: F,
    start: Seq<PartView>,
    parts: Seq<PartView>,
    end: Seq<PartView>,
)
    requires
        changes_nothing(resolve),
        resolved_walk(resolve, start, parts, end),
    ensures
        end == walk(start, parts),
    decreases parts.len(),
{
    if parts.len() > 0 {
        assert(exists|mid: Seq<PartView>|
            resolved_walk(resolve, start, parts.drop_last(), mid) && #[trigger] resolved_step(
                resolve,
                mid,
                parts.last(),
                end,
            ));
        let mid = choose|mid: Seq<PartView>|
            resolved_walk(resolve, start, parts.drop_last(), mid) && #[trigger] resolved_step(
                resolve,
                mid,
                parts.last(),
                end,
            );
        unresolved_walk_is_lexical(resolve, start, parts.drop_last(), mid);
    }
}

} // verus!
