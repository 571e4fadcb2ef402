//! Test facilities for programs: confined fixture paths, pattern checks on
//! captured output, and the decisions around calling an executable.
//!
//! Everything here works on plain values. Reading the disk and starting
//! processes is left to the caller, who hands the observations in and
//! carries the decisions out.

pub mod captured;
pub mod disk;
pub mod error;
pub mod fixtures;
pub mod listing;
pub mod output;
pub mod path;
pub mod path_laws;
pub mod regex;
pub mod testcall;
pub mod testdir;

pub use crate::captured::{CaptureKey, Captured};
pub use crate::error::Failure;
pub use crate::fixtures::{Action, Fixtures};
pub use crate::listing::Listed;
pub use crate::output::{Output, Report, TestOutput};
pub use crate::path::PathPart;
pub use crate::testcall::{Environment, ExeLocation, Invocation, TestCall};
pub use crate::testdir::{DirAssertions, FixtureRoot, PathState, RootKind, TestDir};
