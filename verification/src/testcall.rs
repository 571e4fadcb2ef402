//! Binding an executable, and deciding how each call of it is made.
//!
//! A call is decided here and carried out elsewhere: `call_args_envs` and its
//! shorter forms return the `Invocation` to run and wait for, and
//! `spawn_args_envs` the one to start in the background.

use vstd::prelude::*;
use vstd::slice::slice_to_vec;
use crate::fixtures::copy_path;
use crate::path::{copy_bytes, path_view, PartView, PathPart};
use crate::testdir::TestDir;

verus! {

/// Where the executable comes from.
#[derive(Clone, Debug, PartialEq, Eq)]
pub enum ExeLocation {
    /// An executable that the project builds, looked up by its name.
    BinTest { name: String },
    /// Any other executable, given by its path, as the bytes that name it.
    External(Vec<u8>),
}

/// Where the executable comes from, as a plain value.
pub enum ExeLocationView {
    BinTest { name: Seq<char> },
    External(Seq<u8>),
}

impl View for ExeLocation {
    type V = ExeLocationView;

    open spec fn view(&self) -> ExeLocationView {
        match self {
            ExeLocation::BinTest { name } => ExeLocationView::BinTest { name: name@ },
            ExeLocation::External(path) => ExeLocationView::External(path@),
        }
    }
}

/// The environment that a child process starts with. Names and values are
/// bytes, as the operating system has them.
#[derive(Clone, Debug, PartialEq, Eq)]
pub enum Environment {
    /// That of the calling process, unchanged.
    Inherit,
    /// Nothing but the given variables.
    Replace(Vec<(Vec<u8>, Vec<u8>)>),
}

/// An environment as a plain value.
pub enum EnvironmentView {
    Inherit,
    Replace(Seq<(Seq<u8>, Seq<u8>)>),
}

/// The arguments as plain values.
pub open spec fn args_view(args: Seq<Vec<u8>>) -> Seq<Seq<u8>> {
    Seq::new(args.len(), |i: int| args[i]@)
}

/// The variables as plain values.
pub open spec fn envs_view(envs: Seq<(Vec<u8>, Vec<u8>)>) -> Seq<(Seq<u8>, Seq<u8>)> {
    Seq::new(envs.len(), |i: int| (envs[i].0@, envs[i].1@))
}

impl View for Environment {
    type V = EnvironmentView;

    open spec fn view(&self) -> EnvironmentView {
        match self {
            Environment::Inherit => EnvironmentView::Inherit,
            Environment::Replace(envs) => EnvironmentView::Replace(envs_view(envs@)),
        }
    }
}

/// The environment that a call with the given variables starts with: with
/// none given the caller's own, else the given ones and nothing besides.
pub open spec fn environment_for(envs: Seq<(Seq<u8>, Seq<u8>)>) -> EnvironmentView {
    if envs.len() == 0 {
        EnvironmentView::Inherit
    } else {
        EnvironmentView::Replace(envs)
    }
}

/// One call, fully decided.
#[derive(Clone, Debug, PartialEq, Eq)]
pub struct Invocation {
    /// The executable to start.
    pub executable: ExeLocation,
    /// The directory to start it in, if not the caller's.
    pub dir: Option<Vec<PathPart>>,
    /// Its arguments, each as the bytes that the child is to see.
    pub args: Vec<Vec<u8>>,
    /// Its environment.
    pub environment: Environment,
    /// Whether the child is left running in the background, with its output
    /// piped to a handle, or waited for until it exits.
    pub background: bool,
}

/// A call as a plain value.
pub struct InvocationView {
    pub executable: ExeLocationView,
    pub dir: Option<Seq<PartView>>,
    pub args: Seq<Seq<u8>>,
    pub environment: EnvironmentView,
    pub background: bool,
}

/// The directory as a plain value.
pub open spec fn dir_view(dir: Option<Vec<PathPart>>) -> Option<Seq<PartView>> {
    match dir {
        Some(dir) => Some(path_view(dir@)),
        None => None,
    }
}

impl View for Invocation {
    type V = InvocationView;

    open spec fn view(&self) -> InvocationView {
        InvocationView {
            executable: self.executable@,
            dir: dir_view(self.dir),
            args: args_view(self.args@),
            environment: self.environment@,
            background: self.background,
        }
    }
}

/// An executable, and the directory in which its next call runs.
#[derive(Clone, Debug)]
pub struct TestCall {
    executable: ExeLocation,
    dir: Option<Vec<PathPart>>,
}

/// What a `TestCall` stands for.
pub struct TestCallView {
    pub executable: ExeLocationView,
    pub dir: Option<Seq<PartView>>,
}

impl View for TestCall {
    type V = TestCallView;

    closed spec fn view(&self) -> TestCallView {
        TestCallView { executable: self.executable@, dir: dir_view(self.dir) }
    }
}

/// A copy of the arguments.
fn copy_args(args: &Vec<Vec<u8>>) -> (copy: Vec<Vec<u8>>)
    ensures
        args_view(copy@) == args_view(args@),
{
    let mut copy: Vec<Vec<u8>> = Vec::new();
    let mut i: usize = 0;
    while i < args.len()
        invariant
            i <= args.len(),
            copy@.len() == i,
            forall|k: int| 0 <= k < i ==> copy@[k]@ == args@[k]@,
        decreases args.len() - i,
    {
        copy.push(copy_bytes(&args[i]));
        i += 1;
    }
    assert(args_view(copy@) =~= args_view(args@));
    copy
}

/// A copy of the variables.
fn copy_envs(envs: &Vec<(Vec<u8>, Vec<u8>)>) -> (copy: Vec<(Vec<u8>, Vec<u8>)>)
    ensures
        envs_view(copy@) == envs_view(envs@),
{
    let mut copy: Vec<(Vec<u8>, Vec<u8>)> = Vec::new();
    let mut i: usize = 0;
    while i < envs.len()
        invariant
            i <= envs.len(),
            copy@.len() == i,
            forall|k: int| 0 <= k < i ==> copy@[k].0@ == envs@[k].0@ && copy@[k].1@ == envs@[k].1@,
        decreases envs.len() - i,
    {
        copy.push((copy_bytes(&envs[i].0), copy_bytes(&envs[i].1)));
        i += 1;
    }
    assert(envs_view(copy@) =~= envs_view(envs@));
    copy
}

impl ExeLocation {
    /// A copy of the location.
    pub fn duplicate(&self) -> (copy: ExeLocation)
        ensures
            copy@ == self@,
    {
        match self {
            ExeLocation::BinTest { name } => ExeLocation::BinTest { name: name.clone() },
            ExeLocation::External(path) => ExeLocation::External(copy_bytes(path)),
        }
    }
}

impl TestCall {
    /// Binds the executable called `name` among those that the project
    /// builds. No directory is set.
    pub fn new(name: &str) -> (call: TestCall)
        ensures
            call@ == (TestCallView {
                executable: ExeLocationView::BinTest { name: name@ },
                dir: None,
            }),
    {
        TestCall { executable: ExeLocation::BinTest { name: name.to_owned() }, dir: None }
    }

    /// Binds an executable given by its path. No directory is set.
    pub fn external_command(path: &[u8]) -> (call: TestCall)
        ensures
            call@ == (TestCallView { executable: ExeLocationView::External(path@), dir: None }),
    {
        TestCall { executable: ExeLocation::External(slice_to_vec(path)), dir: None }
    }

    /// Sets the directory in which the next calls run: the root of `dir`.
    pub fn current_dir<D: TestDir>(&mut self, dir: &D)
        ensures
            final(self)@ == (TestCallView {
                executable: old(self)@.executable,
                dir: Some(dir.root()),
            }),
    {
        self.dir = Some(copy_path(dir.path()));
    }

    /// The call with the given arguments and variables. Where variables are
    /// given, the child sees these and no others; where none are given, it
    /// sees the caller's environment.
    pub fn call_args_envs(&self, args: &Vec<Vec<u8>>, envs: &Vec<(Vec<u8>, Vec<u8>)>) -> (call:
        Invocation)
        ensures
            call@ == (InvocationView {
                executable: self@.executable,
                dir: self@.dir,
                args: args_view(args@),
                environment: environment_for(envs_view(envs@)),
                background: false,
            }),
    {
        self.decide(args, envs, false)
    }

    /// The call with the given arguments and variables, started in the
    /// background: the child runs on with its output piped to a handle, on
    /// which the caller waits for it or ends it. The variables are treated
    /// as in `call_args_envs`.
    pub fn spawn_args_envs(&self, args: &Vec<Vec<u8>>, envs: &Vec<(Vec<u8>, Vec<u8>)>) -> (call:
        Invocation)
        ensures
            call@ == (InvocationView {
                executable: self@.executable,
                dir: self@.dir,
                args: args_view(args@),
                environment: environment_for(envs_view(envs@)),
                background: true,
            }),
    {
        self.decide(args, envs, true)
    }

    fn decide(&self, args: &Vec<Vec<u8>>, envs: &Vec<(Vec<u8>, Vec<u8>)>, background: bool) -> (call:
        Invocation)
        ensures
            call@ == (InvocationView {
                executable: self@.executable,
                dir: self@.dir,
                args: args_view(args@),
                environment: environment_for(envs_view(envs@)),
                background,
            }),
    {
        let dir = match &self.dir {
            Some(dir) => Some(copy_path(dir)),
            None => None,
        };
        let environment = if envs.len() == 0 {
            Environment::Inherit
        } else {
            Environment::Replace(copy_envs(envs))
        };
        Invocation {
            executable: self.executable.duplicate(),
            dir,
            args: copy_args(args),
            environment,
            background,
        }
    }

    /// The call with the given arguments, in the caller's environment.
    pub fn call_args(&self, args: &Vec<Vec<u8>>) -> (call: Invocation)
        ensures
            call@ == (InvocationView {
                executable: self@.executable,
                dir: self@.dir,
                args: args_view(args@),
                environment: EnvironmentView::Inherit,
                background: false,
            }),
    {
        let envs: Vec<(Vec<u8>, Vec<u8>)> = Vec::new();
        self.call_args_envs(args, &envs)
    }

    /// The call without arguments, with the given variables.
    pub fn call_envs(&self, envs: &Vec<(Vec<u8>, Vec<u8>)>) -> (call: Invocation)
        ensures
            call@ == (InvocationView {
                executable: self@.executable,
                dir: self@.dir,
                args: Seq::empty(),
                environment: environment_for(envs_view(envs@)),
                background: false,
            }),
    {
        let args: Vec<Vec<u8>> = Vec::new();
        let call = self.call_args_envs(&args, envs);
        assert(args_view(args@) =~= Seq::<Seq<u8>>::empty());
        call
    }

    /// The call without arguments, in the caller's environment.
    pub fn call(&self) -> (call: Invocation)
        ensures
            call@ == (InvocationView {
                executable: self@.executable,
                dir: self@.dir,
                args: Seq::empty(),
                environment: EnvironmentView::Inherit,
                background: false,
            }),
    {
        let args: Vec<Vec<u8>> = Vec::new();
        let envs: Vec<(Vec<u8>, Vec<u8>)> = Vec::new();
        let call = self.call_args_envs(&args, &envs);
        assert(args_view(args@) =~= Seq::<Seq<u8>>::empty());
        call
    }
}

} // verus!
