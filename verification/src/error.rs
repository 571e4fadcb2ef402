//! The ways in which an operation of this crate can fail.

use vstd::prelude::*;
use vstd::string::StringExecFns;

verus! {

/// Why an operation stopped.
#[derive(Clone, Copy, Debug, PartialEq, Eq, Structural)]
pub enum Failure {
    /// The path leaves the fixture root.
    Escape,
    /// The path had to exist and does not.
    NotFound,
    /// The path had to be free and is taken.
    AlreadyExists,
    /// The disk or the child process failed. Nothing in this crate touches
    /// either: this is for whoever carries a plan out.
    IoError,
    /// The pattern does not compile.
    PatternError,
    /// No capture is stored under the key.
    KeyNotFound,
    /// The operation destroys data and the root is not disposable.
    Dangerous,
    /// What was found is not what the assertion expected.
    Mismatch,
}

/// The failure in words.
pub open spec fn reason(failure: Failure) -> Seq<char> {
    match failure {
        Failure::Escape => "escaped from testdir"@,
        Failure::NotFound => "path does not exist"@,
        Failure::AlreadyExists => "path exists already"@,
        Failure::IoError => "input or output failed"@,
        Failure::PatternError => "pattern does not compile"@,
        Failure::KeyNotFound => "no such capture"@,
        Failure::Dangerous => "dangerous operation on a testdir that is not disposable"@,
        Failure::Mismatch => "not as expected"@,
    }
}

impl Failure {
    /// The failure in words.
    pub fn words(&self) -> (message: String)
        ensures
            message@ == reason(*self),
    {
        match self {
            Failure::Escape => "escaped from testdir".to_owned(),
            Failure::NotFound => "path does not exist".to_owned(),
            Failure::AlreadyExists => "path exists already".to_owned(),
            Failure::IoError => "input or output failed".to_owned(),
            Failure::PatternError => "pattern does not compile".to_owned(),
            Failure::KeyNotFound => "no such capture".to_owned(),
            Failure::Dangerous => "dangerous operation on a testdir that is not disposable".to_owned(),
            Failure::Mismatch => "not as expected".to_owned(),
        }
    }

    /// A message for whoever reads the test's output: the failure in words,
    /// and the path or pattern that it is about.
    pub fn describe(&self, subject: &str) -> (message: String)
        ensures
            message@ == reason(*self) + ": "@ + subject@,
    {
        let mut message = self.words();
        message.append(": ");
        message.append(subject);
        message
    }
}

} // verus!
