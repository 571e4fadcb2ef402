//! A fixture root, and what may be looked up and asserted below it.
//!
//! The disk is never read here. Every operation takes `resolve`, which it
//! asks after each component for the real path of what has been reached, so
//! that a link is followed before the path is judged: a path that leaves the
//! root, by `..` or through a link, is refused. What the disk holds at the
//! path is handed in as a `PathState`: what it reports of the path that
//! `sub_path` returns for the same name and the same `resolve`.

use vstd::prelude::*;
use crate::captured::Captured;
use crate::error::{reason, Failure};
use crate::listing::{
    agreeing_listings, equal_listings, listing_view, same_things, same_where_both, Listed,
};
use crate::output::{judge_match, match_report, report_of, Report, ReportView};
use crate::path::{
    canonical, changes_nothing, confined, is_canonical, normal_form, normalize, path_view,
    resolved_walk, starts_with, unresolved_walk_is_lexical, walk_concat, walk_resolving, PartView,
    PathPart,
};
use crate::regex::{
    bytes_has_match, bytes_pattern_compiles, captures_utf8, has_match, is_captures_of, lossy_text,
    pattern_compiles, regex_match_bytes, regex_match_utf8,
};

verus! {

/// What the disk reports of one path. All but `is_symlink` follow links.
#[derive(Clone, Copy, Debug, PartialEq, Eq)]
pub struct PathState {
    /// Something is there.
    pub exists: bool,
    /// It is a directory.
    pub is_dir: bool,
    /// It is a regular file.
    pub is_file: bool,
    /// The path itself is a symbolic link.
    pub is_symlink: bool,
    /// Its size in bytes.
    pub len: u64,
}

/// How a fixture root came to be.
#[derive(Clone, Copy, Debug, PartialEq, Eq, Structural)]
pub enum RootKind {
    /// A directory that the caller named: it may hold anything.
    PlainPath,
    /// A temporary directory made for the tests.
    OwnedTempDir,
    /// A temporary directory made for the tests, with a cleanup of its own.
    OwnedTempDirWithCleanup,
}

/// A path, or the reason why there is none, as plain values.
pub open spec fn result_view(r: Result<Vec<PathPart>, Failure>) -> Result<Seq<PartView>, Failure> {
    match r {
        Ok(path) => Ok(path_view(path@)),
        Err(e) => Err(e),
    }
}

/// Whether `end` is where `subcomponents` may lead from `root`, with links
/// resolved by `resolve` after every component.
pub open spec fn reaches<F: Fn(&Vec<PathPart>) -> Option<Vec<PathPart>>>(
    resolve: F,
    root: Seq<PartView>,
    subcomponents: Seq<PartView>,
    end: Seq<PartView>,
) -> bool {
    resolved_walk(resolve, normal_form(root), subcomponents, end)
}

/// Where `resolve` changes no path, a name leads to one place only, the
/// normal form of the root followed by the name, and the path is confined
/// exactly where it is so lexically.
pub proof fn reaches_lexically<F: Fn(&Vec<PathPart>) -> Option<Vec<PathPart>>>(
    resolve: F,
    root: Seq<PartView>,
    subcomponents: Seq<PartView>,
    end: Seq<PartView>,
)
    requires
        changes_nothing(resolve),
        reaches(resolve, root, subcomponents, end),
    ensures
        end == normal_form(root + subcomponents),
        sub_path_of(root, end) == match confined(root, subcomponents) {
            Some(path) => Ok::<Seq<PartView>, Failure>(path),
            None => Err::<Seq<PartView>, Failure>(Failure::Escape),
        },
{
    unresolved_walk_is_lexical(resolve, normal_form(root), subcomponents, end);
    walk_concat(Seq::empty(), root, subcomponents);
}

/// The place that was reached, provided that it is at or below `root`: that
/// it begins with all the components of `root`.
pub open spec fn sub_path_of(root: Seq<PartView>, end: Seq<PartView>) -> Result<
    Seq<PartView>,
    Failure,
> {
    if root.is_prefix_of(end) {
        Ok(end)
    } else {
        Err(Failure::Escape)
    }
}

/// The path, provided that something is there.
pub open spec fn existing(path: Result<Seq<PartView>, Failure>, exists: bool) -> Result<
    Seq<PartView>,
    Failure,
> {
    match path {
        Ok(path) => if exists {
            Ok(path)
        } else {
            Err(Failure::NotFound)
        },
        Err(e) => Err(e),
    }
}

/// The path, provided that nothing is there.
pub open spec fn available(path: Result<Seq<PartView>, Failure>, exists: bool) -> Result<
    Seq<PartView>,
    Failure,
> {
    match path {
        Ok(path) => if exists {
            Err(Failure::AlreadyExists)
        } else {
            Ok(path)
        },
        Err(e) => Err(e),
    }
}

/// The outcome of an assertion on a path that has to exist: the reason why
/// the path is refused, else whether `holds`.
pub open spec fn asserted(path: Result<Seq<PartView>, Failure>, holds: bool) -> Result<
    (),
    Failure,
> {
    match path {
        Ok(_) => if holds {
            Ok(())
        } else {
            Err(Failure::Mismatch)
        },
        Err(e) => Err(e),
    }
}

/// What a pattern check on the content of a path that has to exist reports.
/// The path is judged first, and where it is refused the report says why.
/// Then the pattern is judged, then the content: a mismatch is reported with
/// the pattern and the whole text.
pub open spec fn content_report(
    path: Result<Seq<PartView>, Failure>,
    regex: Seq<char>,
    text: Seq<char>,
    compiles: bool,
    matches: bool,
) -> Option<ReportView> {
    match path {
        Ok(_) => match_report("content"@, regex, text, compiles, matches),
        Err(e) => Some(ReportView { failure: e, message: reason(e) }),
    }
}

/// Whether the call succeeded, and why not, whatever it returned.
pub open spec fn verdict<T>(r: Result<T, Failure>) -> Result<(), Failure> {
    match r {
        Ok(_) => Ok(()),
        Err(e) => Err(e),
    }
}

/// A directory that bounds what a test may touch.
pub trait TestDir {
    /// The root, as plain components.
    spec fn root(&self) -> Seq<PartView>;

    /// The root.
    fn path(&self) -> (path: &Vec<PathPart>)
        ensures
            path_view(path@) == self.root(),
    ;

    /// Where `subcomponents` leads from the root, with links resolved by
    /// `resolve` after every component. Nothing is judged yet: the place may
    /// lie anywhere.
    fn reach<F: Fn(&Vec<PathPart>) -> Option<Vec<PathPart>>>(&self, subcomponents: &Vec<PathPart>, resolve: &F) -> (full: Vec<PathPart>)
        requires
            forall|any: &Vec<PathPart>| #[trigger] call_requires(*resolve, (any,)),
        ensures
            reaches(*resolve, self.root(), path_view(subcomponents@), path_view(full@)),
    {
        walk_resolving(normalize(self.path()), subcomponents, resolve)
    }

    /// The place `full` that was reached, refused where it is not at or
    /// below the root.
    fn place(&self, full: Vec<PathPart>) -> (r: Result<Vec<PathPart>, Failure>)
        ensures
            result_view(r) == sub_path_of(self.root(), path_view(full@)),
    {
        if starts_with(&full, self.path()) {
            Ok(full)
        } else {
            Err(Failure::Escape)
        }
    }

    /// As `place`, for a place at which something has to be.
    fn place_existing(&self, full: Vec<PathPart>, state: &PathState) -> (r: Result<
        Vec<PathPart>,
        Failure,
    >)
        ensures
            result_view(r) == existing(sub_path_of(self.root(), path_view(full@)), state.exists),
    {
        match self.place(full) {
            Ok(path) => if state.exists {
                Ok(path)
            } else {
                Err(Failure::NotFound)
            },
            Err(e) => Err(e),
        }
    }

    /// As `place`, for a place at which nothing may be.
    fn place_available(&self, full: Vec<PathPart>, state: &PathState) -> (r: Result<
        Vec<PathPart>,
        Failure,
    >)
        ensures
            result_view(r) == available(sub_path_of(self.root(), path_view(full@)), state.exists),
    {
        match self.place(full) {
            Ok(path) => if state.exists {
                Err(Failure::AlreadyExists)
            } else {
                Ok(path)
            },
            Err(e) => Err(e),
        }
    }

    /// The normalized path below the root that `subcomponents` names, with
    /// links resolved: after every component `resolve` is asked for the real
    /// path of what has been reached, and where it knows one, the walk goes
    /// on from there. A path that ends outside the root is refused, whether
    /// it left by `..` or through a link.
    fn sub_path<F: Fn(&Vec<PathPart>) -> Option<Vec<PathPart>>>(&self, subcomponents: &Vec<PathPart>, resolve: &F) -> (r: Result<
        Vec<PathPart>,
        Failure,
    >)
        requires
            forall|any: &Vec<PathPart>| #[trigger] call_requires(*resolve, (any,)),
        ensures
            exists|end: Seq<PartView>|
                #[trigger] reaches(*resolve, self.root(), path_view(subcomponents@), end) && result_view(r) == sub_path_of(self.root(), end),
    {
        self.place(self.reach(subcomponents, resolve))
    }

    /// As `sub_path`, for a path at which something has to be.
    fn sub_path_exists<F: Fn(&Vec<PathPart>) -> Option<Vec<PathPart>>>(
        &self,
        subcomponents: &Vec<PathPart>,
        resolve: &F,
        state: &PathState,
    ) -> (r: Result<Vec<PathPart>, Failure>)
        requires
            forall|any: &Vec<PathPart>| #[trigger] call_requires(*resolve, (any,)),
        ensures
            exists|end: Seq<PartView>|
                #[trigger] reaches(*resolve, self.root(), path_view(subcomponents@), end) && result_view(r) == existing(sub_path_of(self.root(), end), state.exists),
    {
        self.place_existing(self.reach(subcomponents, resolve), state)
    }

    /// As `sub_path`, for a path at which nothing may be.
    fn sub_path_available<F: Fn(&Vec<PathPart>) -> Option<Vec<PathPart>>>(
        &self,
        subcomponents: &Vec<PathPart>,
        resolve: &F,
        state: &PathState,
    ) -> (r: Result<Vec<PathPart>, Failure>)
        requires
            forall|any: &Vec<PathPart>| #[trigger] call_requires(*resolve, (any,)),
        ensures
            exists|end: Seq<PartView>|
                #[trigger] reaches(*resolve, self.root(), path_view(subcomponents@), end) && result_view(r) == available(sub_path_of(self.root(), end), state.exists),
    {
        self.place_available(self.reach(subcomponents, resolve), state)
    }
}

/// Assertions on what a fixture root holds. Each returns the root again, so
/// that assertions can follow one another.
pub trait DirAssertions: TestDir + Sized {
    /// Something is at the path.
    fn assert_exists<F: Fn(&Vec<PathPart>) -> Option<Vec<PathPart>>>(
        &self,
        subpath: &Vec<PathPart>,
        resolve: &F,
        state: &PathState,
    ) -> (r: Result<&Self, Failure>)
        requires
            forall|any: &Vec<PathPart>| #[trigger] call_requires(*resolve, (any,)),
        ensures
            r matches Ok(same) ==> *same == *self,
            exists|end: Seq<PartView>|
                #[trigger] reaches(*resolve, self.root(), path_view(subpath@), end) && verdict(r) == verdict(existing(sub_path_of(self.root(), end), state.exists)),
    {
        match self.sub_path_exists(subpath, resolve, state) {
            Ok(_) => Ok(self),
            Err(e) => Err(e),
        }
    }

    /// Nothing is at the path.
    fn assert_available<F: Fn(&Vec<PathPart>) -> Option<Vec<PathPart>>>(
        &self,
        subpath: &Vec<PathPart>,
        resolve: &F,
        state: &PathState,
    ) -> (r: Result<&Self, Failure>)
        requires
            forall|any: &Vec<PathPart>| #[trigger] call_requires(*resolve, (any,)),
        ensures
            r matches Ok(same) ==> *same == *self,
            exists|end: Seq<PartView>|
                #[trigger] reaches(*resolve, self.root(), path_view(subpath@), end) && verdict(r) == verdict(available(sub_path_of(self.root(), end), state.exists)),
    {
        match self.sub_path_available(subpath, resolve, state) {
            Ok(_) => Ok(self),
            Err(e) => Err(e),
        }
    }

    /// The path is a directory.
    fn assert_is_dir<F: Fn(&Vec<PathPart>) -> Option<Vec<PathPart>>>(
        &self,
        name: &Vec<PathPart>,
        resolve: &F,
        state: &PathState,
    ) -> (r: Result<&Self, Failure>)
        requires
            forall|any: &Vec<PathPart>| #[trigger] call_requires(*resolve, (any,)),
        ensures
            r matches Ok(same) ==> *same == *self,
            exists|end: Seq<PartView>|
                #[trigger] reaches(*resolve, self.root(), path_view(name@), end) && verdict(r) == asserted(
                    existing(sub_path_of(self.root(), end), state.exists),
                    state.is_dir,
                ),
    {
        match self.sub_path_exists(name, resolve, state) {
            Ok(_) => if state.is_dir {
                Ok(self)
            } else {
                Err(Failure::Mismatch)
            },
            Err(e) => Err(e),
        }
    }

    /// The path is a regular file.
    fn assert_is_file<F: Fn(&Vec<PathPart>) -> Option<Vec<PathPart>>>(
        &self,
        name: &Vec<PathPart>,
        resolve: &F,
        state: &PathState,
    ) -> (r: Result<&Self, Failure>)
        requires
            forall|any: &Vec<PathPart>| #[trigger] call_requires(*resolve, (any,)),
        ensures
            r matches Ok(same) ==> *same == *self,
            exists|end: Seq<PartView>|
                #[trigger] reaches(*resolve, self.root(), path_view(name@), end) && verdict(r) == asserted(
                    existing(sub_path_of(self.root(), end), state.exists),
                    state.is_file,
                ),
    {
        match self.sub_path_exists(name, resolve, state) {
            Ok(_) => if state.is_file {
                Ok(self)
            } else {
                Err(Failure::Mismatch)
            },
            Err(e) => Err(e),
        }
    }

    /// The path is a symbolic link.
    fn assert_is_symlink<F: Fn(&Vec<PathPart>) -> Option<Vec<PathPart>>>(
        &self,
        name: &Vec<PathPart>,
        resolve: &F,
        state: &PathState,
    ) -> (r: Result<&Self, Failure>)
        requires
            forall|any: &Vec<PathPart>| #[trigger] call_requires(*resolve, (any,)),
        ensures
            r matches Ok(same) ==> *same == *self,
            exists|end: Seq<PartView>|
                #[trigger] reaches(*resolve, self.root(), path_view(name@), end) && verdict(r) == asserted(
                    existing(sub_path_of(self.root(), end), state.exists),
                    state.is_symlink,
                ),
    {
        match self.sub_path_exists(name, resolve, state) {
            Ok(_) => if state.is_symlink {
                Ok(self)
            } else {
                Err(Failure::Mismatch)
            },
            Err(e) => Err(e),
        }
    }

    /// What is at the path has exactly `size` bytes.
    fn assert_size<F: Fn(&Vec<PathPart>) -> Option<Vec<PathPart>>>(
        &self,
        name: &Vec<PathPart>,
        resolve: &F,
        state: &PathState,
        size: u64,
    ) -> (r: Result<&Self, Failure>)
        requires
            forall|any: &Vec<PathPart>| #[trigger] call_requires(*resolve, (any,)),
        ensures
            r matches Ok(same) ==> *same == *self,
            exists|end: Seq<PartView>|
                #[trigger] reaches(*resolve, self.root(), path_view(name@), end) && verdict(r) == asserted(
                    existing(sub_path_of(self.root(), end), state.exists),
                    state.len == size,
                ),
    {
        match self.sub_path_exists(name, resolve, state) {
            Ok(_) => if state.len == size {
                Ok(self)
            } else {
                Err(Failure::Mismatch)
            },
            Err(e) => Err(e),
        }
    }

    /// What is at the path has more than `size` bytes.
    fn assert_size_greater<F: Fn(&Vec<PathPart>) -> Option<Vec<PathPart>>>(
        &self,
        name: &Vec<PathPart>,
        resolve: &F,
        state: &PathState,
        size: u64,
    ) -> (r: Result<&Self, Failure>)
        requires
            forall|any: &Vec<PathPart>| #[trigger] call_requires(*resolve, (any,)),
        ensures
            r matches Ok(same) ==> *same == *self,
            exists|end: Seq<PartView>|
                #[trigger] reaches(*resolve, self.root(), path_view(name@), end) && verdict(r) == asserted(
                    existing(sub_path_of(self.root(), end), state.exists),
                    state.len > size,
                ),
    {
        match self.sub_path_exists(name, resolve, state) {
            Ok(_) => if state.len > size {
                Ok(self)
            } else {
                Err(Failure::Mismatch)
            },
            Err(e) => Err(e),
        }
    }

    /// What is at the path has fewer than `size` bytes.
    fn assert_size_smaller<F: Fn(&Vec<PathPart>) -> Option<Vec<PathPart>>>(
        &self,
        name: &Vec<PathPart>,
        resolve: &F,
        state: &PathState,
        size: u64,
    ) -> (r: Result<&Self, Failure>)
        requires
            forall|any: &Vec<PathPart>| #[trigger] call_requires(*resolve, (any,)),
        ensures
            r matches Ok(same) ==> *same == *self,
            exists|end: Seq<PartView>|
                #[trigger] reaches(*resolve, self.root(), path_view(name@), end) && verdict(r) == asserted(
                    existing(sub_path_of(self.root(), end), state.exists),
                    state.len < size,
                ),
    {
        match self.sub_path_exists(name, resolve, state) {
            Ok(_) => if state.len < size {
                Ok(self)
            } else {
                Err(Failure::Mismatch)
            },
            Err(e) => Err(e),
        }
    }

    /// The content of the file at the path, lossily decoded, matches `regex`.
    /// A failure is reported with a message: why the path is refused, or the
    /// pattern that does not compile, or the pattern and the whole content
    /// that does not match.
    fn assert_utf8<F: Fn(&Vec<PathPart>) -> Option<Vec<PathPart>>>(
        &self,
        name: &Vec<PathPart>,
        resolve: &F,
        state: &PathState,
        content: &[u8],
        regex: &str,
    ) -> (r: Result<&Self, Report>)
        requires
            forall|any: &Vec<PathPart>| #[trigger] call_requires(*resolve, (any,)),
        ensures
            r matches Ok(same) ==> *same == *self,
            exists|end: Seq<PartView>|
                #[trigger] reaches(*resolve, self.root(), path_view(name@), end) && report_of(r) == content_report(
                    existing(sub_path_of(self.root(), end), state.exists),
                    regex@,
                    lossy_text(content@),
                    pattern_compiles(regex@),
                    has_match(regex@, lossy_text(content@)),
                ),
    {
        match self.sub_path_exists(name, resolve, state) {
            Ok(_) => match judge_match("content", regex, regex_match_utf8(content, regex)) {
                Ok(_) => Ok(self),
                Err(report) => Err(report),
            },
            Err(e) => Err(Report { failure: e, message: e.words() }),
        }
    }

    /// The content of the file at the path, as raw bytes, matches `regex`.
    /// A failure is reported as by `assert_utf8`.
    fn assert_bytes<F: Fn(&Vec<PathPart>) -> Option<Vec<PathPart>>>(
        &self,
        name: &Vec<PathPart>,
        resolve: &F,
        state: &PathState,
        content: &[u8],
        regex: &str,
    ) -> (r: Result<&Self, Report>)
        requires
            forall|any: &Vec<PathPart>| #[trigger] call_requires(*resolve, (any,)),
        ensures
            r matches Ok(same) ==> *same == *self,
            exists|end: Seq<PartView>|
                #[trigger] reaches(*resolve, self.root(), path_view(name@), end) && report_of(r) == content_report(
                    existing(sub_path_of(self.root(), end), state.exists),
                    regex@,
                    lossy_text(content@),
                    bytes_pattern_compiles(regex@),
                    bytes_has_match(regex@, content@),
                ),
    {
        match self.sub_path_exists(name, resolve, state) {
            Ok(_) => match judge_match("content", regex, regex_match_bytes(content, regex)) {
                Ok(_) => Ok(self),
                Err(report) => Err(report),
            },
            Err(e) => Err(Report { failure: e, message: e.words() }),
        }
    }

    /// What is at `to` below the root, listed in `found`, holds exactly the
    /// same things as `from`, a listing of a file or a directory anywhere.
    fn assert_equal<F: Fn(&Vec<PathPart>) -> Option<Vec<PathPart>>>(
        &self,
        from: &Vec<Listed>,
        to: &Vec<PathPart>,
        resolve: &F,
        to_state: &PathState,
        found: &Vec<Listed>,
    ) -> (r: Result<&Self, Failure>)
        requires
            forall|any: &Vec<PathPart>| #[trigger] call_requires(*resolve, (any,)),
        ensures
            r matches Ok(same) ==> *same == *self,
            exists|end: Seq<PartView>|
                #[trigger] reaches(*resolve, self.root(), path_view(to@), end) && verdict(r) == asserted(
                    existing(sub_path_of(self.root(), end), to_state.exists),
                    same_things(listing_view(from@), listing_view(found@)),
                ),
    {
        match self.sub_path_exists(to, resolve, to_state) {
            Ok(_) => if equal_listings(from, found) {
                Ok(self)
            } else {
                Err(Failure::Mismatch)
            },
            Err(e) => Err(e),
        }
    }

    /// What is at `to` below the root, listed in `found`, is the same as in
    /// `from` wherever both hold something; what only one of them holds does
    /// not count.
    fn assert_equal_exists<F: Fn(&Vec<PathPart>) -> Option<Vec<PathPart>>>(
        &self,
        from: &Vec<Listed>,
        to: &Vec<PathPart>,
        resolve: &F,
        to_state: &PathState,
        found: &Vec<Listed>,
    ) -> (r: Result<&Self, Failure>)
        requires
            forall|any: &Vec<PathPart>| #[trigger] call_requires(*resolve, (any,)),
        ensures
            r matches Ok(same) ==> *same == *self,
            exists|end: Seq<PartView>|
                #[trigger] reaches(*resolve, self.root(), path_view(to@), end) && verdict(r) == asserted(
                    existing(sub_path_of(self.root(), end), to_state.exists),
                    same_where_both(listing_view(from@), listing_view(found@)),
                ),
    {
        match self.sub_path_exists(to, resolve, to_state) {
            Ok(_) => if agreeing_listings(from, found) {
                Ok(self)
            } else {
                Err(Failure::Mismatch)
            },
            Err(e) => Err(e),
        }
    }

    /// The captures of `regex` in the lossily decoded content of the file at
    /// the path.
    fn captures_utf8<F: Fn(&Vec<PathPart>) -> Option<Vec<PathPart>>>(
        &self,
        name: &Vec<PathPart>,
        resolve: &F,
        state: &PathState,
        content: &[u8],
        regex: &str,
    ) -> (r: Result<Captured, Failure>)
        requires
            forall|any: &Vec<PathPart>| #[trigger] call_requires(*resolve, (any,)),
        ensures
            exists|end: Seq<PartView>|
                #[trigger] reaches(*resolve, self.root(), path_view(name@), end) && match existing(sub_path_of(self.root(), end), state.exists) {
                    Err(e) => r matches Err(f) && f == e,
                    Ok(_) => is_captures_of(r, content@, regex@),
                },
    {
        match self.sub_path_exists(name, resolve, state) {
            Ok(_) => captures_utf8(content, regex),
            Err(e) => Err(e),
        }
    }
}

/// A fixture root: a canonical absolute path, and how it came to be.
#[derive(Clone, Debug, PartialEq, Eq)]
pub struct FixtureRoot {
    parts: Vec<PathPart>,
    kind: RootKind,
}

impl FixtureRoot {
    /// The root is a canonical absolute path.
    pub closed spec fn wf(&self) -> bool {
        is_canonical(path_view(self.parts@))
    }

    /// How the root came to be.
    pub closed spec fn kind_of(&self) -> RootKind {
        self.kind
    }

    /// The root of a well-formed value is canonical.
    pub proof fn root_is_canonical(&self)
        requires
            self.wf(),
        ensures
            is_canonical(self.root()),
    {
    }

    /// A fixture root at the given path, which has to be canonical.
    pub fn new(parts: Vec<PathPart>, kind: RootKind) -> (r: Option<FixtureRoot>)
        ensures
            r.is_some() == is_canonical(path_view(parts@)),
            r matches Some(root) ==> root.wf() && root.root() == path_view(parts@)
                && root.kind_of() == kind,
    {
        if canonical(&parts) {
            Some(FixtureRoot { parts, kind })
        } else {
            None
        }
    }

    /// How the root came to be.
    pub fn kind(&self) -> (kind: RootKind)
        ensures
            kind == self.kind_of(),
    {
        self.kind
    }
}

impl TestDir for FixtureRoot {
    closed spec fn root(&self) -> Seq<PartView> {
        path_view(self.parts@)
    }

    fn path(&self) -> (path: &Vec<PathPart>) {
        &self.parts
    }
}

impl DirAssertions for FixtureRoot {

}

} // verus!
