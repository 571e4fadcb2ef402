//! What the planned actions do: a model of the disk, and what holds of the
//! plans when they are performed on it.
//!
//! The model is for stating and proving; nothing in it runs. It knows files,
//! directories and symbolic links by their full paths. Of a link it says only
//! that it is one: where a link leads is not modelled. So the laws speak of
//! the place that a name leads to, after links have been resolved: the
//! `place` below is what the operation reached.

use vstd::prelude::*;
use crate::error::Failure;
use crate::fixtures::{
    create_dir_plan, create_file_plan, delete_plan, install_plan, parent_of, ActionView,
};
use crate::path::{has_parent, PartView};
use crate::testdir::{asserted, available, existing, sub_path_of, PathState};

verus! {

/// What the disk holds at one path.
pub enum Node {
    /// A regular file with its content.
    File(Seq<u8>),
    /// A directory.
    Dir,
    /// A symbolic link.
    Link,
}

/// The disk: what it holds, by full path.
pub struct Disk {
    pub nodes: Map<Seq<PartView>, Node>,
}

/// Whether `state` is what the disk reports of `path`. Of a symbolic link
/// only that it is one is fixed: the rest depends on where it leads.
pub open spec fn reports(disk: Disk, path: Seq<PartView>, state: PathState) -> bool {
    if !disk.nodes.contains_key(path) {
        !state.exists && !state.is_dir && !state.is_file && !state.is_symlink
    } else {
        match disk.nodes[path] {
            Node::File(content) => state.exists && state.is_file && !state.is_dir
                && !state.is_symlink && state.len == content.len(),
            Node::Dir => state.exists && state.is_dir && !state.is_file && !state.is_symlink,
            Node::Link => state.is_symlink,
        }
    }
}

/// The disk after one action.
///
/// Making directories leaves what is there as it is. Writing and copying a
/// file put the content at the path, whatever was there. Copying a tree
/// brings over everything below the source, under the same names. Removing a
/// directory removes all that is at or below it.
pub open spec fn perform(action: ActionView, disk: Disk) -> Disk {
    match action {
        ActionView::CreateDirAll(path) => Disk {
            nodes: Map::new(
                |at: Seq<PartView>|
                    disk.nodes.contains_key(at) || (at.len() > 0 && at.is_prefix_of(path)),
                |at: Seq<PartView>|
                    if disk.nodes.contains_key(at) {
                        disk.nodes[at]
                    } else {
                        Node::Dir
                    },
            ),
        },
        ActionView::WriteFile(path, content) => Disk {
            nodes: disk.nodes.insert(path, Node::File(content)),
        },
        ActionView::CopyFile { from, to } => if disk.nodes.contains_key(from) {
            Disk { nodes: disk.nodes.insert(to, disk.nodes[from]) }
        } else {
            disk
        },
        ActionView::CopyTree { from, to } => Disk {
            nodes: Map::new(
                |at: Seq<PartView>| disk.nodes.contains_key(at) || arrives(disk, from, to, at),
                |at: Seq<PartView>|
                    if arrives(disk, from, to, at) {
                        disk.nodes[from + at.skip(to.len() as int)]
                    } else {
                        disk.nodes[at]
                    },
            ),
        },
        ActionView::Symlink { from, to } => Disk { nodes: disk.nodes.insert(to, Node::Link) },
        ActionView::Hardlink { from, to } => if disk.nodes.contains_key(from) {
            Disk { nodes: disk.nodes.insert(to, disk.nodes[from]) }
        } else {
            disk
        },
        ActionView::RemoveFile(path) => Disk { nodes: disk.nodes.remove(path) },
        ActionView::RemoveDirAll(path) => Disk {
            nodes: Map::new(
                |at: Seq<PartView>| disk.nodes.contains_key(at) && !path.is_prefix_of(at),
                |at: Seq<PartView>| disk.nodes[at],
            ),
        },
    }
}

/// Whether copying the tree `from` to `to` puts something at `at`: `at` lies
/// below `to`, and the source holds something at the same place below `from`.
pub open spec fn arrives(
    disk: Disk,
    from: Seq<PartView>,
    to: Seq<PartView>,
    at: Seq<PartView>,
) -> bool {
    to.is_prefix_of(at) && at.len() > to.len() && disk.nodes.contains_key(
        from + at.skip(to.len() as int),
    )
}

/// The disk after all the actions of a plan, in order.
pub open spec fn run(plan: Seq<ActionView>, disk: Disk) -> Disk
    decreases plan.len(),
{
    if plan.len() == 0 {
        disk
    } else {
        perform(plan.last(), run(plan.drop_last(), disk))
    }
}

proof fn lemma_run_one(action: ActionView, disk: Disk)
    ensures
        run(seq![action], disk) == perform(action, disk),
{
    let plan = seq![action];
    assert(plan.drop_last() =~= Seq::<ActionView>::empty());
    assert(run(plan.drop_last(), disk) == disk);
}

proof fn lemma_run_two(first: ActionView, second: ActionView, disk: Disk)
    ensures
        run(seq![first, second], disk) == perform(second, perform(first, disk)),
{
    let plan = seq![first, second];
    assert(plan.drop_last() =~= seq![first]);
    lemma_run_one(first, disk);
}

/// The disk after a file has been put at `path` with its parents made.
proof fn lemma_run_with_parents(path: Seq<PartView>, put: ActionView, disk: Disk)
    ensures
        run(crate::fixtures::with_parents(path, put), disk) == match parent_of(path) {
            Some(dir) => perform(put, perform(ActionView::CreateDirAll(dir), disk)),
            None => perform(put, disk),
        },
{
    match parent_of(path) {
        Some(dir) => lemma_run_two(ActionView::CreateDirAll(dir), put, disk),
        None => lemma_run_one(put, disk),
    }
}

/// After `create_file` has been performed, the file is there with its
/// content: an assertion that it exists, or that it is a file, succeeds, and
/// a second `create_file` of the same name is refused as already existing.
pub proof fn created_file_exists(
    disk: Disk,
    root: Seq<PartView>,
    place: Seq<PartView>,
    content: Seq<u8>,
    state: PathState,
    again: Seq<u8>,
    after: PathState,
)
    requires
        create_file_plan(root, place, content, state) is Ok,
        reports(
            run(create_file_plan(root, place, content, state).unwrap(), disk),
            sub_path_of(root, place).unwrap(),
            after,
        ),
    ensures
        run(create_file_plan(root, place, content, state).unwrap(), disk).nodes[sub_path_of(root, place).unwrap()] == Node::File(content),
        existing(sub_path_of(root, place), after.exists) is Ok,
        asserted(existing(sub_path_of(root, place), after.exists), after.is_file) is Ok,
        create_file_plan(root, place, again, after) == Err::<Seq<ActionView>, Failure>(
            Failure::AlreadyExists,
        ),
{
    let path = sub_path_of(root, place).unwrap();
    lemma_run_with_parents(path, ActionView::WriteFile(path, content), disk);
}

/// After `create_file` has been performed at a path that ends in a name,
/// every directory above the file is there: what was missing has been made
/// as a directory, and what was there is as it was.
pub proof fn created_file_has_parents(
    disk: Disk,
    root: Seq<PartView>,
    place: Seq<PartView>,
    content: Seq<u8>,
    state: PathState,
    levels: int,
)
    requires
        create_file_plan(root, place, content, state) is Ok,
        has_parent(sub_path_of(root, place).unwrap()),
        0 < levels < sub_path_of(root, place).unwrap().len(),
    ensures
        ({
            let path = sub_path_of(root, place).unwrap();
            let above = path.take(levels);
            let now = run(create_file_plan(root, place, content, state).unwrap(), disk);
            &&& now.nodes.contains_key(above)
            &&& now.nodes[above] == if disk.nodes.contains_key(above) {
                disk.nodes[above]
            } else {
                Node::Dir
            }
        }),
{
    let path = sub_path_of(root, place).unwrap();
    let above = path.take(levels);
    lemma_run_with_parents(path, ActionView::WriteFile(path, content), disk);
    let dir = path.drop_last();
    assert(above.is_prefix_of(dir)) by {
        assert(above =~= dir.subrange(0, levels));
    }
    assert(above != path);
}

/// After `create_dir` has been performed at a path that is no symbolic
/// link, the directory is there: an
/// assertion that it is a directory succeeds, and a second `create_dir` of
/// the same name is refused as already existing.
pub proof fn created_dir_exists(
    disk: Disk,
    root: Seq<PartView>,
    place: Seq<PartView>,
    state: PathState,
    after: PathState,
)
    requires
        create_dir_plan(root, place, state) is Ok,
        reports(disk, sub_path_of(root, place).unwrap(), state),
        !state.is_symlink,
        sub_path_of(root, place).unwrap().len() > 0,
        reports(
            run(create_dir_plan(root, place, state).unwrap(), disk),
            sub_path_of(root, place).unwrap(),
            after,
        ),
    ensures
        run(create_dir_plan(root, place, state).unwrap(), disk).nodes[sub_path_of(root, place).unwrap()] == Node::Dir,
        asserted(existing(sub_path_of(root, place), after.exists), after.is_dir) is Ok,
        create_dir_plan(root, place, after) == Err::<Seq<ActionView>, Failure>(
            Failure::AlreadyExists,
        ),
{
    let path = sub_path_of(root, place).unwrap();
    lemma_run_one(ActionView::CreateDirAll(path), disk);
    assert(path.is_prefix_of(path)) by {
        assert(path =~= path.subrange(0, path.len() as int));
    }
}

/// After `delete` has been performed on a disposable root, nothing is at the
/// path any more: an assertion that it is available succeeds.
pub proof fn deleted_is_available(
    disk: Disk,
    root: Seq<PartView>,
    place: Seq<PartView>,
    state: PathState,
    after: PathState,
)
    requires
        delete_plan(root, true, place, state) is Ok,
        reports(
            run(delete_plan(root, true, place, state).unwrap(), disk),
            sub_path_of(root, place).unwrap(),
            after,
        ),
    ensures
        !run(delete_plan(root, true, place, state).unwrap(), disk).nodes.contains_key(
            sub_path_of(root, place).unwrap(),
        ),
        available(sub_path_of(root, place), after.exists) is Ok,
{
    let path = sub_path_of(root, place).unwrap();
    assert(path.is_prefix_of(path)) by {
        assert(path =~= path.subrange(0, path.len() as int));
    }
    if state.is_dir && !state.is_symlink {
        lemma_run_one(ActionView::RemoveDirAll(path), disk);
    } else {
        lemma_run_one(ActionView::RemoveFile(path), disk);
    }
}

/// A root that is not disposable refuses `delete`, whatever is asked, and
/// plans nothing: the disk stays as it is.
pub proof fn plain_root_refuses_delete(root: Seq<PartView>, place: Seq<PartView>, state: PathState)
    ensures
        delete_plan(root, false, place, state) == Err::<Seq<ActionView>, Failure>(
            Failure::Dangerous,
        ),
{
}

/// An installed file arrives with its content: at the destination itself
/// where that is missing or a file, and under the source's own name where
/// the destination is a directory or none is named.
pub proof fn installed_file_arrives(
    disk: Disk,
    root: Seq<PartView>,
    from: Seq<PartView>,
    from_state: PathState,
    unnamed: bool,
    to: Seq<PartView>,
    to_state: PathState,
)
    requires
        install_plan(root, from, from_state, unnamed, to, to_state) is Ok,
        reports(disk, from, from_state),
        from_state.is_file,
        !from_state.is_dir,
    ensures
        ({
            let dest = sub_path_of(root, to).unwrap();
            let now = run(install_plan(root, from, from_state, unnamed, to, to_state).unwrap(), disk);
            let target = if unnamed || (to_state.exists && to_state.is_dir) {
                dest.push(from.last())
            } else {
                dest
            };
            now.nodes.contains_key(target) && now.nodes[target] == disk.nodes[from]
        }),
{
    let dest = sub_path_of(root, to).unwrap();
    if unnamed || (to_state.exists && to_state.is_dir) {
        lemma_run_one(ActionView::CopyFile { from, to: dest.push(from.last()) }, disk);
    } else if !to_state.exists {
        lemma_run_with_parents(dest, ActionView::CopyFile { from, to: dest }, disk);
        if parent_of(dest) is Some {
            let dir = parent_of(dest).unwrap();
            assert(perform(ActionView::CreateDirAll(dir), disk).nodes.contains_key(from));
        }
    } else {
        lemma_run_one(ActionView::CopyFile { from, to: dest }, disk);
    }
}

} // verus!
