//! Assertions on what a finished process left behind.

use vstd::prelude::*;
use vstd::string::StringExecFns;
use crate::captured::Captured;
use crate::error::Failure;
use crate::regex::{
    bytes_has_match, bytes_pattern_compiles, captures_utf8, has_match, is_captures_of, lossy_text,
    pattern_compiles, regex_match_bytes, regex_match_utf8,
};

verus! {

/// A failed assertion: the kind of failure, and a message for whoever reads
/// the test's output.
#[derive(Clone, Debug)]
pub struct Report {
    pub failure: Failure,
    pub message: String,
}

/// A failed assertion as a plain value.
pub struct ReportView {
    pub failure: Failure,
    pub message: Seq<char>,
}

impl View for Report {
    type V = ReportView;

    open spec fn view(&self) -> ReportView {
        ReportView { failure: self.failure, message: self.message@ }
    }
}

/// The message for a stream that does not match a pattern: it names the
/// stream and shows the pattern and the whole text.
pub open spec fn mismatch_text(stream: Seq<char>, regex: Seq<char>, text: Seq<char>) -> Seq<char> {
    stream + " does not match:\n"@ + regex + "\n"@ + stream + " was:\n"@ + text
}

/// What a pattern check on a stream reports: nothing where the pattern
/// matches, else the pattern that does not compile, or the mismatch with
/// pattern and text.
pub open spec fn match_report(
    stream: Seq<char>,
    regex: Seq<char>,
    text: Seq<char>,
    compiles: bool,
    matches: bool,
) -> Option<ReportView> {
    if !compiles {
        Some(ReportView { failure: Failure::PatternError, message: regex })
    } else if matches {
        None
    } else {
        Some(ReportView { failure: Failure::Mismatch, message: mismatch_text(stream, regex, text) })
    }
}

/// What a check of a condition reports: nothing where it holds, else a
/// mismatch with the given message.
pub open spec fn check_report(holds: bool, message: Seq<char>) -> Option<ReportView> {
    if holds {
        None
    } else {
        Some(ReportView { failure: Failure::Mismatch, message })
    }
}

/// The report of a call, if it failed.
pub open spec fn report_of<T>(r: Result<T, Report>) -> Option<ReportView> {
    match r {
        Ok(_) => None,
        Err(report) => Some(report@),
    }
}

/// The message for a stream that does not match a pattern.
pub fn mismatch_message(stream: &str, regex: &str, text: &str) -> (message: String)
    ensures
        message@ == mismatch_text(stream@, regex@, text@),
{
    let mut message = stream.to_owned();
    message.append(" does not match:\n");
    message.append(regex);
    message.append("\n");
    message.append(stream);
    message.append(" was:\n");
    message.append(text);
    message
}

/// The outcome of a condition that has to hold.
fn check(holds: bool, message: &str) -> (r: Result<(), Report>)
    ensures
        report_of(r) == check_report(holds, message@),
{
    if holds {
        Ok(())
    } else {
        Err(Report { failure: Failure::Mismatch, message: message.to_owned() })
    }
}

/// The outcome of a pattern check on a stream, given what the pattern engine
/// found: `found` holds whether the pattern matched and the decoded text.
pub fn judge_match(stream: &str, regex: &str, found: Result<(bool, String), Failure>) -> (r:
    Result<(), Report>)
    ensures
        report_of(r) == match found {
            Ok(found) => match_report(stream@, regex@, found.1@, true, found.0),
            Err(_) => match_report(stream@, regex@, Seq::empty(), false, false),
        },
{
    match found {
        Ok(found) => if found.0 {
            Ok(())
        } else {
            Err(
                Report {
                    failure: Failure::Mismatch,
                    message: mismatch_message(stream, regex, found.1.as_str()),
                },
            )
        },
        Err(_) => Err(Report { failure: Failure::PatternError, message: regex.to_owned() }),
    }
}

/// What a finished process left behind, with assertions on it. Each
/// assertion returns the output again, so that assertions can follow one
/// another.
pub trait TestOutput: Sized {
    /// The exit code, where the process exited with one.
    spec fn exit_code(&self) -> Option<i32>;

    /// What the process wrote to its standard output.
    spec fn stdout_bytes(&self) -> Seq<u8>;

    /// What the process wrote to its standard error.
    spec fn stderr_bytes(&self) -> Seq<u8>;

    /// The exit code, where the process exited with one.
    fn code(&self) -> (code: Option<i32>)
        ensures
            code == self.exit_code(),
    ;

    /// What the process wrote to its standard output.
    fn stdout(&self) -> (bytes: &[u8])
        ensures
            bytes@ == self.stdout_bytes(),
    ;

    /// What the process wrote to its standard error.
    fn stderr(&self) -> (bytes: &[u8])
        ensures
            bytes@ == self.stderr_bytes(),
    ;

    /// The process exited with success, that is with code 0.
    fn assert_success(&self) -> (r: Result<&Self, Report>)
        ensures
            r matches Ok(same) ==> *same == *self,
            report_of(r) == check_report(
                self.exit_code() == Some(0i32),
                "expected success at exit"@,
            ),
    {
        let code = self.code();
        let success = match code {
            Some(code) => code == 0,
            None => false,
        };
        match check(success, "expected success at exit") {
            Ok(_) => Ok(self),
            Err(report) => Err(report),
        }
    }

    /// The process did not exit with success.
    fn assert_failure(&self) -> (r: Result<&Self, Report>)
        ensures
            r matches Ok(same) ==> *same == *self,
            report_of(r) == check_report(
                self.exit_code() != Some(0i32),
                "expected failure at exit"@,
            ),
    {
        let code = self.code();
        let success = match code {
            Some(code) => code == 0,
            None => false,
        };
        match check(!success, "expected failure at exit") {
            Ok(_) => Ok(self),
            Err(report) => Err(report),
        }
    }

    /// The process exited with the given code.
    fn assert_exitcode(&self, code: i32) -> (r: Result<&Self, Report>)
        ensures
            r matches Ok(same) ==> *same == *self,
            report_of(r) == check_report(self.exit_code() == Some(code), "unexpected exitcode"@),
    {
        let actual = self.code();
        let same = match actual {
            Some(actual) => actual == code,
            None => false,
        };
        match check(same, "unexpected exitcode") {
            Ok(_) => Ok(self),
            Err(report) => Err(report),
        }
    }

    /// The standard output, lossily decoded, matches `regex`.
    fn assert_stdout_utf8(&self, regex: &str) -> (r: Result<&Self, Report>)
        ensures
            r matches Ok(same) ==> *same == *self,
            report_of(r) == match_report(
                "stdout"@,
                regex@,
                lossy_text(self.stdout_bytes()),
                pattern_compiles(regex@),
                has_match(regex@, lossy_text(self.stdout_bytes())),
            ),
    {
        match judge_match("stdout", regex, regex_match_utf8(self.stdout(), regex)) {
            Ok(_) => Ok(self),
            Err(report) => Err(report),
        }
    }

    /// The standard error, lossily decoded, matches `regex`.
    fn assert_stderr_utf8(&self, regex: &str) -> (r: Result<&Self, Report>)
        ensures
            r matches Ok(same) ==> *same == *self,
            report_of(r) == match_report(
                "stderr"@,
                regex@,
                lossy_text(self.stderr_bytes()),
                pattern_compiles(regex@),
                has_match(regex@, lossy_text(self.stderr_bytes())),
            ),
    {
        match judge_match("stderr", regex, regex_match_utf8(self.stderr(), regex)) {
            Ok(_) => Ok(self),
            Err(report) => Err(report),
        }
    }

    /// The standard output, as raw bytes, matches `regex`.
    fn assert_stdout_bytes(&self, regex: &str) -> (r: Result<&Self, Report>)
        ensures
            r matches Ok(same) ==> *same == *self,
            report_of(r) == match_report(
                "stdout"@,
                regex@,
                lossy_text(self.stdout_bytes()),
                bytes_pattern_compiles(regex@),
                bytes_has_match(regex@, self.stdout_bytes()),
            ),
    {
        match judge_match("stdout", regex, regex_match_bytes(self.stdout(), regex)) {
            Ok(_) => Ok(self),
            Err(report) => Err(report),
        }
    }

    /// The standard error, as raw bytes, matches `regex`.
    fn assert_stderr_bytes(&self, regex: &str) -> (r: Result<&Self, Report>)
        ensures
            r matches Ok(same) ==> *same == *self,
            report_of(r) == match_report(
                "stderr"@,
                regex@,
                lossy_text(self.stderr_bytes()),
                bytes_pattern_compiles(regex@),
                bytes_has_match(regex@, self.stderr_bytes()),
            ),
    {
        match judge_match("stderr", regex, regex_match_bytes(self.stderr(), regex)) {
            Ok(_) => Ok(self),
            Err(report) => Err(report),
        }
    }

    /// The captures of `regex` in the lossily decoded standard output.
    fn stdout_captures_utf8(&self, regex: &str) -> (r: Result<Captured, Failure>)
        ensures
            is_captures_of(r, self.stdout_bytes(), regex@),
    {
        captures_utf8(self.stdout(), regex)
    }

    /// The captures of `regex` in the lossily decoded standard error.
    fn stderr_captures_utf8(&self, regex: &str) -> (r: Result<Captured, Failure>)
        ensures
            is_captures_of(r, self.stderr_bytes(), regex@),
    {
        captures_utf8(self.stderr(), regex)
    }
}

/// What a finished process left behind, as plain values.
#[derive(Clone, Debug)]
pub struct Output {
    /// The exit code; none where a signal ended the process.
    pub code: Option<i32>,
    /// What the process wrote to its standard output.
    pub stdout: Vec<u8>,
    /// What the process wrote to its standard error.
    pub stderr: Vec<u8>,
}

impl TestOutput for Output {
    open spec fn exit_code(&self) -> Option<i32> {
        self.code
    }

    open spec fn stdout_bytes(&self) -> Seq<u8> {
        self.stdout@
    }

    open spec fn stderr_bytes(&self) -> Seq<u8> {
        self.stderr@
    }

    fn code(&self) -> (code: Option<i32>) {
        self.code
    }

    fn stdout(&self) -> (bytes: &[u8]) {
        self.stdout.as_slice()
    }

    fn stderr(&self) -> (bytes: &[u8]) {
        self.stderr.as_slice()
    }
}

} // verus!
