//! Playwright's output, reduced to the tests that failed.

use vstd::prelude::*;
use crate::command::OutputMode;
use crate::document::{
    all_specs, collect_test_results, count_specs, failing, failures_of, PlaywrightJsonOutput, PlaywrightStats,
    PlaywrightSuite,
};
use crate::install::{filter_install, install_report};
use crate::results::{failure_views, ParseResult, ResultView, TestFailure, TestResult};
use crate::rich::{format_rich_output, lemma_failing_len, rich_report};
use crate::summary::{
    counts_fit, extract_counts, extract_playwright_regex, shown_result,
};

verus! {

/// What is worked out of the output of a test run before it is parsed.
#[derive(Debug)]
pub struct Prepared {
    /// The JSON document that the output is, or why it is none.
    pub decoded: Result<PlaywrightJsonOutput, String>,
    /// The duration that the output shows as text.
    pub duration_ms: Option<u64>,
    /// What to show of output that is not understood.
    pub passthrough: String,
}

/// The parser of the output of Playwright's tests.
pub struct PlaywrightParser;

/// The result that a JSON document states.
pub open spec fn stated_result(
    stats: PlaywrightStats,
    suites: Seq<PlaywrightSuite>,
) -> ResultView {
    ResultView {
        total: all_specs(suites).len(),
        passed: stats.expected as nat,
        failed: stats.unexpected as nat,
        skipped: stats.skipped as nat,
        duration_ms: Some(stats.duration),
        failures: failures_of(all_specs(suites)),
    }
}

/// The number of tests is one that fits, wherever it is read.
pub open spec fn can_count(input: Seq<char>, prepared: Prepared) -> bool {
    match prepared.decoded {
        Ok(json) => all_specs(json.suites@).len() <= usize::MAX,
        Err(_) => counts_fit(input),
    }
}

/// `r` is what `input` comes to: the result that the JSON document states; or
/// else the result that the text shows, with a warning; or else the text.
pub open spec fn is_parse_of(
    input: Seq<char>,
    prepared: Prepared,
    r: ParseResult<TestResult>,
) -> bool {
    match prepared.decoded {
        Ok(json) => r matches ParseResult::Full(result) && result@ == stated_result(
            json.stats,
            json.suites@,
        ),
        Err(error) => match shown_result(input, prepared.duration_ms) {
            Some(shown) => r matches ParseResult::Degraded(result, warnings) && result@ == shown
                && warnings@.len() == 1 && warnings@[0]@ == "JSON parse failed: "@ + error@,
            None => r matches ParseResult::Passthrough(s) && s@ == prepared.passthrough@,
        },
    }
}

/// The result that a JSON document states.
fn read_document(json: PlaywrightJsonOutput) -> (r: TestResult)
    requires
        all_specs(json.suites@).len() <= usize::MAX,
    ensures
        r@ == stated_result(json.stats, json.suites@),
{
    let mut failures: Vec<TestFailure> = Vec::new();
    let mut total: usize = 0;
    collect_test_results(json.suites.as_slice(), &mut total, &mut failures);
    assert(failure_views(failures@) == failures_of(all_specs(json.suites@)));
    TestResult {
        total,
        passed: json.stats.expected,
        failed: json.stats.unexpected,
        skipped: json.stats.skipped,
        duration_ms: Some(json.stats.duration),
        failures,
    }
}

impl PlaywrightParser {
    /// Parses the output of a test run: as JSON, or else by the text in it, or
    /// else not at all.
    pub fn parse(input: &str, prepared: Prepared) -> (r: ParseResult<TestResult>)
        requires
            can_count(input@, prepared),
        ensures
            is_parse_of(input@, prepared, r),
    {
        match prepared.decoded {
            Ok(json) => ParseResult::Full(read_document(json)),
            Err(error) => match extract_playwright_regex(input, prepared.duration_ms) {
                Some(result) => {
                    let mut warning = "JSON parse failed: ".to_owned();
                    warning.append(error.as_str());
                    let mut warnings: Vec<String> = Vec::new();
                    warnings.push(warning);
                    ParseResult::Degraded(result, warnings)
                },
                None => ParseResult::Passthrough(prepared.passthrough),
            },
        }
    }

    /// Parses the output of a test run, or returns `None` where there are more
    /// tests than can be counted.
    pub fn checked_parse(input: &str, prepared: Prepared) -> (r: Option<ParseResult<TestResult>>)
        ensures
            r is Some <==> can_count(input@, prepared),
            r matches Some(parsed) ==> is_parse_of(input@, prepared, parsed),
    {
        match &prepared.decoded {
            Ok(json) => {
                if count_specs(json.suites.as_slice()).is_none() {
                    return None;
                }
            },
            Err(_) => {
                let counts = extract_counts(input);
                if counts.failed > usize::MAX - counts.passed || counts.skipped > usize::MAX
                    - counts.passed - counts.failed {
                    return None;
                }
            },
        }
        Some(PlaywrightParser::parse(input, prepared))
    }
}

/// What is to be shown of the output of a test run.
#[derive(Debug)]
pub enum TestReport {
    /// The report, as it is.
    Rich(String),
    /// A result that is still to be formatted, and what went wrong before it.
    Result(TestResult, Vec<String>),
    /// The text, since no result could be read.
    Passthrough(String),
}

/// `r` is what is to be shown of `stdout`: the rich report on its JSON document,
/// or else what can be read of its text.
pub open spec fn is_report_of(stdout: Seq<char>, prepared: Prepared, r: TestReport) -> bool {
    match prepared.decoded {
        Ok(json) => r matches TestReport::Rich(s) && s@ == rich_report(
            json.stats,
            failing(all_specs(json.suites@)),
        ),
        Err(_) => match r {
            TestReport::Result(result, warnings) => is_parse_of(
                stdout,
                prepared,
                ParseResult::Degraded(result, warnings),
            ),
            TestReport::Passthrough(s) => is_parse_of(
                stdout,
                prepared,
                ParseResult::Passthrough(s),
            ),
            TestReport::Rich(_) => false,
        },
    }
}

/// What is to be shown of the output of a test run, or `None` where there are more
/// tests than can be counted.
pub fn report_tests(stdout: &str, prepared: Prepared) -> (r: Option<TestReport>)
    ensures
        r is Some <==> can_count(stdout@, prepared),
        r matches Some(report) ==> is_report_of(stdout@, prepared, report),
{
    if let Ok(json) = &prepared.decoded {
        if count_specs(json.suites.as_slice()).is_none() {
            return None;
        }
        proof {
            lemma_failing_len(all_specs(json.suites@));
        }
        return Some(TestReport::Rich(format_rich_output(json)));
    }
    match PlaywrightParser::checked_parse(stdout, prepared) {
        Some(ParseResult::Full(result)) => Some(TestReport::Result(result, Vec::new())),
        Some(ParseResult::Degraded(result, warnings)) => Some(TestReport::Result(result, warnings)),
        Some(ParseResult::Passthrough(s)) => Some(TestReport::Passthrough(s)),
        None => None,
    }
}

/// What is to be shown of the output of a call that runs no tests, or whose
/// reporter the user chose.
pub fn report_other(mode: OutputMode, raw: &str) -> (r: String)
    requires
        mode != OutputMode::Test,
    ensures
        r@ == if mode == OutputMode::Install {
            install_report(raw@)
        } else {
            raw@
        },
{
    match mode {
        OutputMode::Install => filter_install(raw),
        _ => raw.to_owned(),
    }
}

} // verus!
