//! Staging files below a fixture root.
//!
//! Every operation decides what has to be done and returns it as a plan: the
//! actions to perform on the disk, in order. A refused operation has no plan,
//! so nothing is touched.

use vstd::prelude::*;
use crate::error::Failure;
use crate::path::{has_parent, path_view, PartView, PathPart};
use vstd::slice::slice_to_vec;
use crate::testdir::{
    available, existing, reaches, sub_path_of, FixtureRoot, PathState, RootKind, TestDir,
};

verus! {

/// One thing to do on the disk.
#[derive(Clone, Debug, PartialEq, Eq)]
pub enum Action {
    /// Create the directory and every missing directory above it.
    CreateDirAll(Vec<PathPart>),
    /// Write the bytes to a new file at the path.
    WriteFile(Vec<PathPart>, Vec<u8>),
    /// Copy the file `from` to the path `to`, replacing a file that is there.
    CopyFile { from: Vec<PathPart>, to: Vec<PathPart> },
    /// Copy what the directory `from` holds into the directory `to`.
    CopyTree { from: Vec<PathPart>, to: Vec<PathPart> },
    /// Make `to` a symbolic link to `from`.
    Symlink { from: Vec<PathPart>, to: Vec<PathPart> },
    /// Make `to` a hard link to `from`.
    Hardlink { from: Vec<PathPart>, to: Vec<PathPart> },
    /// Remove the file at the path.
    RemoveFile(Vec<PathPart>),
    /// Remove the directory at the path and all that it holds.
    RemoveDirAll(Vec<PathPart>),
}

/// An action as a plain value.
pub enum ActionView {
    CreateDirAll(Seq<PartView>),
    WriteFile(Seq<PartView>, Seq<u8>),
    CopyFile { from: Seq<PartView>, to: Seq<PartView> },
    CopyTree { from: Seq<PartView>, to: Seq<PartView> },
    Symlink { from: Seq<PartView>, to: Seq<PartView> },
    Hardlink { from: Seq<PartView>, to: Seq<PartView> },
    RemoveFile(Seq<PartView>),
    RemoveDirAll(Seq<PartView>),
}

impl View for Action {
    type V = ActionView;

    open spec fn view(&self) -> ActionView {
        match self {
            Action::CreateDirAll(path) => ActionView::CreateDirAll(path_view(path@)),
            Action::WriteFile(path, content) => ActionView::WriteFile(path_view(path@), content@),
            Action::CopyFile { from, to } => ActionView::CopyFile {
                from: path_view(from@),
                to: path_view(to@),
            },
            Action::CopyTree { from, to } => ActionView::CopyTree {
                from: path_view(from@),
                to: path_view(to@),
            },
            Action::Symlink { from, to } => ActionView::Symlink {
                from: path_view(from@),
                to: path_view(to@),
            },
            Action::Hardlink { from, to } => ActionView::Hardlink {
                from: path_view(from@),
                to: path_view(to@),
            },
            Action::RemoveFile(path) => ActionView::RemoveFile(path_view(path@)),
            Action::RemoveDirAll(path) => ActionView::RemoveDirAll(path_view(path@)),
        }
    }
}

/// The actions as plain values.
pub open spec fn plan_view(plan: Seq<Action>) -> Seq<ActionView> {
    Seq::new(plan.len(), |i: int| plan[i]@)
}

/// A plan, or the reason why there is none, as plain values.
pub open spec fn outcome_view(r: Result<Vec<Action>, Failure>) -> Result<Seq<ActionView>, Failure> {
    match r {
        Ok(plan) => Ok(plan_view(plan@)),
        Err(e) => Err(e),
    }
}

/// The directory that holds the path, where the path has one.
pub open spec fn parent_of(path: Seq<PartView>) -> Option<Seq<PartView>> {
    if has_parent(path) {
        Some(path.drop_last())
    } else {
        None
    }
}

/// The name that the path ends in, where it ends in one.
pub open spec fn base_name(path: Seq<PartView>) -> Option<PartView> {
    if path.len() > 0 && path.last() is Normal {
        Some(path.last())
    } else {
        None
    }
}

/// The actions that put something at `path`, with the directories above it
/// made first.
pub open spec fn with_parents(path: Seq<PartView>, put: ActionView) -> Seq<ActionView> {
    match parent_of(path) {
        Some(dir) => seq![ActionView::CreateDirAll(dir), put],
        None => seq![put],
    }
}

/// The plan of `create_file` at the place that the name leads to: the path
/// has to be below the root and free; then the directories
/// above it are made and the content is written.
pub open spec fn create_file_plan(
    root: Seq<PartView>,
    name: Seq<PartView>,
    content: Seq<u8>,
    state: PathState,
) -> Result<Seq<ActionView>, Failure> {
    match available(sub_path_of(root, name), state.exists) {
        Ok(path) => Ok(with_parents(path, ActionView::WriteFile(path, content))),
        Err(e) => Err(e),
    }
}

/// The plan of `create_dir` at the place that the name leads to: the path
/// has to be below the root and free; then it is made, with
/// the directories above it.
pub open spec fn create_dir_plan(root: Seq<PartView>, name: Seq<PartView>, state: PathState)
    -> Result<Seq<ActionView>, Failure> {
    match available(sub_path_of(root, name), state.exists) {
        Ok(path) => Ok(seq![ActionView::CreateDirAll(path)]),
        Err(e) => Err(e),
    }
}

/// The plan that copies the directory `from` to a new directory of the same
/// name inside `dest`.
pub open spec fn nest_tree(from: Seq<PartView>, dest: Seq<PartView>) -> Result<
    Seq<ActionView>,
    Failure,
> {
    match base_name(from) {
        Some(name) => Ok(
            seq![
                ActionView::CreateDirAll(dest.push(name)),
                ActionView::CopyTree { from, to: dest.push(name) },
            ],
        ),
        None => Err(Failure::NotFound),
    }
}

/// The plan that copies the file `from` into the directory `dest`, under its
/// own name.
pub open spec fn nest_file(from: Seq<PartView>, dest: Seq<PartView>) -> Result<
    Seq<ActionView>,
    Failure,
> {
    match base_name(from) {
        Some(name) => Ok(seq![ActionView::CopyFile { from, to: dest.push(name) }]),
        None => Err(Failure::NotFound),
    }
}

/// The plan of `install` to the place `to` that the destination leads to.
///
/// The source has to exist and be a directory or a file, and the destination
/// has to stay below the root. Where no destination is named (`unnamed`), the
/// source goes right below the root under its own name. A destination that is a symbolic
/// link is refused. Then, for a directory: a missing destination gets a new
/// directory of the source's name inside it, an existing directory takes the
/// source's content, an existing file is refused. For a file: a missing
/// destination becomes the copy, an existing directory takes the copy under
/// the source's name, an existing file is replaced.
pub open spec fn install_plan(
    root: Seq<PartView>,
    from: Seq<PartView>,
    from_state: PathState,
    unnamed: bool,
    to: Seq<PartView>,
    to_state: PathState,
) -> Result<Seq<ActionView>, Failure> {
    if !from_state.exists {
        Err(Failure::NotFound)
    } else {
        match sub_path_of(root, to) {
            Err(e) => Err(e),
            Ok(dest) => if !from_state.is_dir && !from_state.is_file {
                Err(Failure::Mismatch)
            } else if unnamed {
                if from_state.is_dir {
                    nest_tree(from, dest)
                } else {
                    nest_file(from, dest)
                }
            } else if to_state.is_symlink {
                Err(Failure::AlreadyExists)
            } else if !to_state.exists {
                if from_state.is_dir {
                    nest_tree(from, dest)
                } else {
                    Ok(with_parents(dest, ActionView::CopyFile { from, to: dest }))
                }
            } else if to_state.is_dir {
                if from_state.is_dir {
                    Ok(seq![ActionView::CopyTree { from, to: dest }])
                } else {
                    nest_file(from, dest)
                }
            } else {
                if from_state.is_dir {
                    Err(Failure::AlreadyExists)
                } else {
                    Ok(seq![ActionView::CopyFile { from, to: dest }])
                }
            },
        }
    }
}

/// The plan of `symlink`: the source has to exist and the destination has to
/// stay below the root.
pub open spec fn symlink_plan(
    root: Seq<PartView>,
    from: Seq<PartView>,
    from_state: PathState,
    to: Seq<PartView>,
) -> Result<Seq<ActionView>, Failure> {
    if !from_state.exists {
        Err(Failure::NotFound)
    } else {
        match sub_path_of(root, to) {
            Ok(dest) => Ok(seq![ActionView::Symlink { from, to: dest }]),
            Err(e) => Err(e),
        }
    }
}

/// The plan of `hardlink`: the source has to exist and the destination has
/// to stay below the root.
pub open spec fn hardlink_plan(
    root: Seq<PartView>,
    from: Seq<PartView>,
    from_state: PathState,
    to: Seq<PartView>,
) -> Result<Seq<ActionView>, Failure> {
    if !from_state.exists {
        Err(Failure::NotFound)
    } else {
        match sub_path_of(root, to) {
            Ok(dest) => Ok(seq![ActionView::Hardlink { from, to: dest }]),
            Err(e) => Err(e),
        }
    }
}

/// The plan of `delete`: only a disposable root allows it. There the path
/// has to be below the root and something has to be at it; a directory is
/// removed with all that it holds, anything else as a file.
pub open spec fn delete_plan(
    root: Seq<PartView>,
    disposable: bool,
    name: Seq<PartView>,
    state: PathState,
) -> Result<Seq<ActionView>, Failure> {
    if !disposable {
        Err(Failure::Dangerous)
    } else {
        match existing(sub_path_of(root, name), state.exists || state.is_symlink) {
            Ok(path) => Ok(
                if state.is_dir && !state.is_symlink {
                    seq![ActionView::RemoveDirAll(path)]
                } else {
                    seq![ActionView::RemoveFile(path)]
                },
            ),
            Err(e) => Err(e),
        }
    }
}

/// A place outside the root is refused by every operation, and nothing is
/// planned there: so it is for a name that left the root through a link.
/// Only a missing source, and a root that is not disposable, are reported
/// first.
pub proof fn outside_is_refused(
    root: Seq<PartView>,
    end: Seq<PartView>,
    from: Seq<PartView>,
    from_state: PathState,
    unnamed: bool,
    content: Seq<u8>,
    state: PathState,
)
    requires
        !root.is_prefix_of(end),
    ensures
        sub_path_of(root, end) == Err::<Seq<PartView>, Failure>(Failure::Escape),
        existing(sub_path_of(root, end), state.exists) == Err::<Seq<PartView>, Failure>(
            Failure::Escape,
        ),
        available(sub_path_of(root, end), state.exists) == Err::<Seq<PartView>, Failure>(
            Failure::Escape,
        ),
        create_file_plan(root, end, content, state) == Err::<Seq<ActionView>, Failure>(
            Failure::Escape,
        ),
        create_dir_plan(root, end, state) == Err::<Seq<ActionView>, Failure>(Failure::Escape),
        delete_plan(root, true, end, state) == Err::<Seq<ActionView>, Failure>(Failure::Escape),
        from_state.exists ==> install_plan(root, from, from_state, unnamed, end, state) == Err::<
            Seq<ActionView>,
            Failure,
        >(Failure::Escape),
        from_state.exists ==> symlink_plan(root, from, from_state, end) == Err::<
            Seq<ActionView>,
            Failure,
        >(Failure::Escape),
        from_state.exists ==> hardlink_plan(root, from, from_state, end) == Err::<
            Seq<ActionView>,
            Failure,
        >(Failure::Escape),
{
}

/// A copy of the path.
pub fn copy_path(path: &Vec<PathPart>) -> (copy: Vec<PathPart>)
    ensures
        path_view(copy@) == path_view(path@),
{
    let mut copy: Vec<PathPart> = Vec::new();
    let mut i: usize = 0;
    while i < path.len()
        invariant
            i <= path.len(),
            copy@.len() == i,
            forall|k: int| 0 <= k < i ==> copy@[k]@ == path@[k]@,
        decreases path.len() - i,
    {
        copy.push(path[i].duplicate());
        i += 1;
    }
    assert(path_view(copy@) =~= path_view(path@));
    copy
}

/// The directory that holds the path, where the path has one.
pub fn parent(path: &Vec<PathPart>) -> (dir: Option<Vec<PathPart>>)
    ensures
        match dir {
            Some(dir) => parent_of(path_view(path@)) == Some(path_view(dir@)),
            None => parent_of(path_view(path@)) is None,
        },
{
    let n = path.len();
    if n == 0 || matches!(path[n - 1], PathPart::RootDir | PathPart::Prefix(_)) {
        return None;
    }
    let mut dir = copy_path(path);
    dir.pop();
    assert(path_view(dir@) =~= path_view(path@).drop_last());
    Some(dir)
}

/// The path `dir` with `name` appended.
fn child(dir: &Vec<PathPart>, name: &PathPart) -> (path: Vec<PathPart>)
    ensures
        path_view(path@) == path_view(dir@).push(name@),
{
    let mut path = copy_path(dir);
    path.push(name.duplicate());
    assert(path_view(path@) =~= path_view(dir@).push(name@));
    path
}

/// The plan that holds this one action.
fn single(action: Action) -> (plan: Vec<Action>)
    ensures
        plan_view(plan@) == seq![action@],
{
    let mut plan: Vec<Action> = Vec::new();
    plan.push(action);
    assert(plan_view(plan@) =~= seq![action@]);
    plan
}

/// The plan that holds these two actions.
fn pair(first: Action, second: Action) -> (plan: Vec<Action>)
    ensures
        plan_view(plan@) == seq![first@, second@],
{
    let mut plan: Vec<Action> = Vec::new();
    plan.push(first);
    plan.push(second);
    assert(plan_view(plan@) =~= seq![first@, second@]);
    plan
}

/// The plan that makes the directories above `path` and then performs `put`.
fn put_with_parents(path: &Vec<PathPart>, put: Action) -> (plan: Vec<Action>)
    ensures
        plan_view(plan@) == with_parents(path_view(path@), put@),
{
    match parent(path) {
        Some(dir) => pair(Action::CreateDirAll(dir), put),
        None => single(put),
    }
}

/// The plan that copies the directory `from` to a new directory of the same
/// name inside `dest`.
fn plan_nest_tree(from: &Vec<PathPart>, dest: &Vec<PathPart>) -> (r: Result<Vec<Action>, Failure>)
    ensures
        outcome_view(r) == nest_tree(path_view(from@), path_view(dest@)),
{
    let n = from.len();
    if n > 0 && matches!(from[n - 1], PathPart::Normal(_)) {
        let made = child(dest, &from[n - 1]);
        let target = copy_path(&made);
        Ok(
            pair(
                Action::CreateDirAll(made),
                Action::CopyTree { from: copy_path(from), to: target },
            ),
        )
    } else {
        Err(Failure::NotFound)
    }
}

/// The plan that copies the file `from` into the directory `dest`, under its
/// own name.
fn plan_nest_file(from: &Vec<PathPart>, dest: &Vec<PathPart>) -> (r: Result<Vec<Action>, Failure>)
    ensures
        outcome_view(r) == nest_file(path_view(from@), path_view(dest@)),
{
    let n = from.len();
    if n > 0 && matches!(from[n - 1], PathPart::Normal(_)) {
        let target = child(dest, &from[n - 1]);
        Ok(single(Action::CopyFile { from: copy_path(from), to: target }))
    } else {
        Err(Failure::NotFound)
    }
}

/// Staging files below a fixture root. The disk is not touched: each
/// operation returns the actions to perform.
///
/// Each operation comes in two forms. The one that takes a name walks there
/// first, with links resolved by `resolve`, and then decides. The one whose
/// name ends in `_at` takes the place that was reached and decides.
pub trait Fixtures: TestDir {
    /// Whether the root was made for the tests, so that what is below it may
    /// be destroyed.
    spec fn disposable(&self) -> bool;

    /// Whether the root was made for the tests.
    fn is_disposable(&self) -> (disposable: bool)
        ensures
            disposable == self.disposable(),
    ;

    /// A new file with the given content at the place `full`. Directories
    /// above it are made as needed; the file itself may not exist yet.
    fn create_file_at(&self, full: Vec<PathPart>, content: &[u8], state: &PathState) -> (r:
        Result<Vec<Action>, Failure>)
        ensures
            outcome_view(r) == create_file_plan(self.root(), path_view(full@), content@, *state),
    {
        match self.place_available(full, state) {
            Ok(path) => {
                let target = copy_path(&path);
                Ok(put_with_parents(&path, Action::WriteFile(target, slice_to_vec(content))))
            },
            Err(e) => Err(e),
        }
    }

    /// A new file with the given content. Directories above it are made as
    /// needed; the file itself may not exist yet.
    fn create_file<F: Fn(&Vec<PathPart>) -> Option<Vec<PathPart>>>(
        &self,
        name: &Vec<PathPart>,
        resolve: &F,
        content: &[u8],
        state: &PathState,
    ) -> (r: Result<Vec<Action>, Failure>)
        requires
            forall|any: &Vec<PathPart>| #[trigger] call_requires(*resolve, (any,)),
        ensures
            exists|end: Seq<PartView>|
                #[trigger] reaches(*resolve, self.root(), path_view(name@), end) && outcome_view(r) == create_file_plan(self.root(), end, content@, *state),
    {
        self.create_file_at(self.reach(name, resolve), content, state)
    }

    /// A new directory at the place `full`. Directories above it are made
    /// as needed; the directory itself may not exist yet.
    fn create_dir_at(&self, full: Vec<PathPart>, state: &PathState) -> (r: Result<
        Vec<Action>,
        Failure,
    >)
        ensures
            outcome_view(r) == create_dir_plan(self.root(), path_view(full@), *state),
    {
        match self.place_available(full, state) {
            Ok(path) => Ok(single(Action::CreateDirAll(path))),
            Err(e) => Err(e),
        }
    }

    /// A new directory. Directories above it are made as needed; the
    /// directory itself may not exist yet.
    fn create_dir<F: Fn(&Vec<PathPart>) -> Option<Vec<PathPart>>>(&self, name: &Vec<PathPart>, resolve: &F, state: &PathState) -> (r: Result<
        Vec<Action>,
        Failure,
    >)
        requires
            forall|any: &Vec<PathPart>| #[trigger] call_requires(*resolve, (any,)),
        ensures
            exists|end: Seq<PartView>|
                #[trigger] reaches(*resolve, self.root(), path_view(name@), end) && outcome_view(r) == create_dir_plan(self.root(), end, *state),
    {
        self.create_dir_at(self.reach(name, resolve), state)
    }

    /// Brings the file or directory `from`, which lies anywhere, to the
    /// place `full` that the destination leads to; `unnamed` says that no
    /// destination was named.
    fn install_at(
        &self,
        from: &Vec<PathPart>,
        from_state: &PathState,
        unnamed: bool,
        full: Vec<PathPart>,
        to_state: &PathState,
    ) -> (r: Result<Vec<Action>, Failure>)
        ensures
            outcome_view(r) == install_plan(
                self.root(),
                path_view(from@),
                *from_state,
                unnamed,
                path_view(full@),
                *to_state,
            ),
    {
        if !from_state.exists {
            return Err(Failure::NotFound);
        }
        let dest = match self.place(full) {
            Ok(dest) => dest,
            Err(e) => {
                return Err(e);
            },
        };
        if !from_state.is_dir && !from_state.is_file {
            Err(Failure::Mismatch)
        } else if unnamed {
            if from_state.is_dir {
                plan_nest_tree(from, &dest)
            } else {
                plan_nest_file(from, &dest)
            }
        } else if to_state.is_symlink {
            Err(Failure::AlreadyExists)
        } else if !to_state.exists {
            if from_state.is_dir {
                plan_nest_tree(from, &dest)
            } else {
                let target = copy_path(&dest);
                Ok(put_with_parents(&dest, Action::CopyFile { from: copy_path(from), to: target }))
            }
        } else if to_state.is_dir {
            if from_state.is_dir {
                Ok(single(Action::CopyTree { from: copy_path(from), to: dest }))
            } else {
                plan_nest_file(from, &dest)
            }
        } else {
            if from_state.is_dir {
                Err(Failure::AlreadyExists)
            } else {
                Ok(single(Action::CopyFile { from: copy_path(from), to: dest }))
            }
        }
    }

    /// Brings the file or directory `from`, which lies anywhere, to `to`
    /// below the root. With an empty `to` no destination is named.
    fn install<F: Fn(&Vec<PathPart>) -> Option<Vec<PathPart>>>(
        &self,
        from: &Vec<PathPart>,
        from_state: &PathState,
        to: &Vec<PathPart>,
        resolve: &F,
        to_state: &PathState,
    ) -> (r: Result<Vec<Action>, Failure>)
        requires
            forall|any: &Vec<PathPart>| #[trigger] call_requires(*resolve, (any,)),
        ensures
            exists|end: Seq<PartView>|
                #[trigger] reaches(*resolve, self.root(), path_view(to@), end) && outcome_view(r) == install_plan(
                    self.root(),
                    path_view(from@),
                    *from_state,
                    to@.len() == 0,
                    end,
                    *to_state,
                ),
    {
        self.install_at(from, from_state, to.len() == 0, self.reach(to, resolve), to_state)
    }

    /// A symbolic link at the place `full` below the root, to the existing
    /// `from`, which lies anywhere.
    fn symlink_at(&self, from: &Vec<PathPart>, from_state: &PathState, full: Vec<PathPart>) -> (r:
        Result<Vec<Action>, Failure>)
        ensures
            outcome_view(r) == symlink_plan(
                self.root(),
                path_view(from@),
                *from_state,
                path_view(full@),
            ),
    {
        if !from_state.exists {
            return Err(Failure::NotFound);
        }
        match self.place(full) {
            Ok(dest) => Ok(single(Action::Symlink { from: copy_path(from), to: dest })),
            Err(e) => Err(e),
        }
    }

    /// A symbolic link at `to` below the root, to the existing `from`,
    /// which lies anywhere.
    fn symlink<F: Fn(&Vec<PathPart>) -> Option<Vec<PathPart>>>(
        &self,
        from: &Vec<PathPart>,
        from_state: &PathState,
        to: &Vec<PathPart>,
        resolve: &F,
    ) -> (r: Result<Vec<Action>, Failure>)
        requires
            forall|any: &Vec<PathPart>| #[trigger] call_requires(*resolve, (any,)),
        ensures
            exists|end: Seq<PartView>|
                #[trigger] reaches(*resolve, self.root(), path_view(to@), end) && outcome_view(r) == symlink_plan(self.root(), path_view(from@), *from_state, end),
    {
        self.symlink_at(from, from_state, self.reach(to, resolve))
    }

    /// A hard link at the place `full` below the root, to the existing
    /// `from`, which lies anywhere.
    fn hardlink_at(&self, from: &Vec<PathPart>, from_state: &PathState, full: Vec<PathPart>) -> (r:
        Result<Vec<Action>, Failure>)
        ensures
            outcome_view(r) == hardlink_plan(
                self.root(),
                path_view(from@),
                *from_state,
                path_view(full@),
            ),
    {
        if !from_state.exists {
            return Err(Failure::NotFound);
        }
        match self.place(full) {
            Ok(dest) => Ok(single(Action::Hardlink { from: copy_path(from), to: dest })),
            Err(e) => Err(e),
        }
    }

    /// A hard link at `to` below the root, to the existing `from`, which
    /// lies anywhere.
    fn hardlink<F: Fn(&Vec<PathPart>) -> Option<Vec<PathPart>>>(
        &self,
        from: &Vec<PathPart>,
        from_state: &PathState,
        to: &Vec<PathPart>,
        resolve: &F,
    ) -> (r: Result<Vec<Action>, Failure>)
        requires
            forall|any: &Vec<PathPart>| #[trigger] call_requires(*resolve, (any,)),
        ensures
            exists|end: Seq<PartView>|
                #[trigger] reaches(*resolve, self.root(), path_view(to@), end) && outcome_view(r) == hardlink_plan(self.root(), path_view(from@), *from_state, end),
    {
        self.hardlink_at(from, from_state, self.reach(to, resolve))
    }

    /// Removes what is at the place `full`: a file, or a directory with all
    /// that it holds. Refused unless the root is disposable.
    fn delete_at(&self, full: Vec<PathPart>, state: &PathState) -> (r: Result<
        Vec<Action>,
        Failure,
    >)
        ensures
            outcome_view(r) == delete_plan(
                self.root(),
                self.disposable(),
                path_view(full@),
                *state,
            ),
    {
        if !self.is_disposable() {
            return Err(Failure::Dangerous);
        }
        let found = PathState {
            exists: state.exists || state.is_symlink,
            is_dir: state.is_dir,
            is_file: state.is_file,
            is_symlink: state.is_symlink,
            len: state.len,
        };
        match self.place_existing(full, &found) {
            Ok(path) => if state.is_dir && !state.is_symlink {
                Ok(single(Action::RemoveDirAll(path)))
            } else {
                Ok(single(Action::RemoveFile(path)))
            },
            Err(e) => Err(e),
        }
    }

    /// Removes what is at the path: a file, or a directory with all that it
    /// holds. A root that is not disposable refuses at once: `resolve` is
    /// not even asked.
    fn delete<F: Fn(&Vec<PathPart>) -> Option<Vec<PathPart>>>(&self, name: &Vec<PathPart>, resolve: &F, state: &PathState) -> (r: Result<
        Vec<Action>,
        Failure,
    >)
        requires
            forall|any: &Vec<PathPart>| #[trigger] call_requires(*resolve, (any,)),
        ensures
            !self.disposable() ==> r == Err::<Vec<Action>, Failure>(Failure::Dangerous),
            self.disposable() ==> exists|end: Seq<PartView>|
                #[trigger] reaches(*resolve, self.root(), path_view(name@), end) && outcome_view(r)
                    == delete_plan(self.root(), true, end, *state),
    {
        if !self.is_disposable() {
            return Err(Failure::Dangerous);
        }
        self.delete_at(self.reach(name, resolve), state)
    }
}

impl Fixtures for FixtureRoot {
    open spec fn disposable(&self) -> bool {
        self.kind_of() != RootKind::PlainPath
    }

    fn is_disposable(&self) -> (disposable: bool) {
        match self.kind() {
            RootKind::PlainPath => false,
            RootKind::OwnedTempDir => true,
            RootKind::OwnedTempDirWithCleanup => true,
        }
    }
}

} // verus!
