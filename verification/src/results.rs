//! What a test run came to, in the form that is shown to the user.

use vstd::prelude::*;

verus! {

/// A test that failed.
#[derive(Debug)]
pub struct TestFailure {
    pub test_name: String,
    pub file_path: String,
    pub error_message: String,
    pub stack_trace: Option<String>,
}

/// What a `TestFailure` says.
pub struct FailureView {
    pub test_name: Seq<char>,
    pub file_path: Seq<char>,
    pub error_message: Seq<char>,
    pub stack_trace: Option<Seq<char>>,
}

impl View for TestFailure {
    type V = FailureView;

    open spec fn view(&self) -> FailureView {
        FailureView {
            test_name: self.test_name@,
            file_path: self.file_path@,
            error_message: self.error_message@,
            stack_trace: match self.stack_trace {
                Some(stack) => Some(stack@),
                None => None,
            },
        }
    }
}

/// What the failures of `failures` say.
pub open spec fn failure_views(failures: Seq<TestFailure>) -> Seq<FailureView> {
    failures.map_values(|f: TestFailure| f@)
}

/// The counts, the duration and the failures of a test run.
#[derive(Debug)]
pub struct TestResult {
    pub total: usize,
    pub passed: usize,
    pub failed: usize,
    pub skipped: usize,
    pub duration_ms: Option<u64>,
    pub failures: Vec<TestFailure>,
}

/// What a `TestResult` says.
pub struct ResultView {
    pub total: nat,
    pub passed: nat,
    pub failed: nat,
    pub skipped: nat,
    pub duration_ms: Option<u64>,
    pub failures: Seq<FailureView>,
}

impl View for TestResult {
    type V = ResultView;

    open spec fn view(&self) -> ResultView {
        ResultView {
            total: self.total as nat,
            passed: self.passed as nat,
            failed: self.failed as nat,
            skipped: self.skipped as nat,
            duration_ms: self.duration_ms,
            failures: failure_views(self.failures@),
        }
    }
}

/// How much of some output was understood.
#[derive(Debug)]
pub enum ParseResult<T> {
    /// All of it.
    Full(T),
    /// Some of it; the strings say what went wrong.
    Degraded(T, Vec<String>),
    /// None of it: the text is to be shown as it is.
    Passthrough(String),
}

impl<T> ParseResult<T> {
    /// The tier that understood the output, the best being the first.
    pub fn tier(&self) -> (r: u8)
        ensures
            r == match *self {
                ParseResult::Full(_) => 1u8,
                ParseResult::Degraded(_, _) => 2u8,
                ParseResult::Passthrough(_) => 3u8,
            },
    {
        match self {
            ParseResult::Full(_) => 1,
            ParseResult::Degraded(_, _) => 2,
            ParseResult::Passthrough(_) => 3,
        }
    }

    /// Whether there is a result.
    pub fn is_ok(&self) -> (r: bool)
        ensures
            r == !(*self is Passthrough),
    {
        match self {
            ParseResult::Passthrough(_) => false,
            _ => true,
        }
    }

    /// The result, of which there must be one.
    pub fn unwrap(self) -> (r: T)
        requires
            !(self is Passthrough),
        ensures
            self matches ParseResult::Full(t) ==> r == t,
            self matches ParseResult::Degraded(t, _) ==> r == t,
    {
        match self {
            ParseResult::Full(t) => t,
            ParseResult::Degraded(t, _) => t,
            ParseResult::Passthrough(_) => vstd::pervasive::unreached(),
        }
    }
}

} // verus!
