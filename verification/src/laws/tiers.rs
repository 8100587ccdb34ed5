//! What the output of a test run comes to: a document, a result read from text, or
//! the text.

use vstd::prelude::*;
use crate::document::{all_specs, failing, failures_of};
use crate::playwright::{can_count, is_parse_of, is_report_of, Prepared, TestReport};
use crate::results::{failure_views, ParseResult, TestResult};
use crate::rich::rich_report;
use crate::summary::{shown_counts, shown_result};

verus! {

/// A result says what its fields hold, and each of its failures says what its own
/// fields hold.
pub proof fn law_views(result: TestResult, i: int)
    requires
        0 <= i < result.failures@.len(),
    ensures
        result@.total == result.total,
        result@.passed == result.passed,
        result@.failed == result.failed,
        result@.skipped == result.skipped,
        result@.duration_ms == result.duration_ms,
        result@.failures.len() == result.failures@.len(),
        result@.failures[i].test_name == result.failures@[i].test_name@,
        result@.failures[i].file_path == result.failures@[i].file_path@,
        result@.failures[i].error_message == result.failures@[i].error_message@,
        result@.failures[i].stack_trace is Some <==> result.failures@[i].stack_trace is Some,
        result.failures@[i].stack_trace matches Some(stack) ==> result@.failures[i].stack_trace
            == Some(stack@),
{
}

/// A document is understood in full. The number of tests is that of the specs found
/// in it, the other counts and the duration are those that it states, and the
/// failures are those of its specs.
pub proof fn law_documents_are_understood(
    input: Seq<char>,
    prepared: Prepared,
    r: ParseResult<TestResult>,
)
    requires
        prepared.decoded is Ok,
        is_parse_of(input, prepared, r),
    ensures
        r matches ParseResult::Full(result) && {
            let json = prepared.decoded->Ok_0;
            &&& result.total == all_specs(json.suites@).len()
            &&& result.passed == json.stats.expected
            &&& result.failed == json.stats.unexpected
            &&& result.skipped == json.stats.skipped
            &&& result.duration_ms == Some(json.stats.duration)
            &&& failure_views(result.failures@) == failures_of(all_specs(json.suites@))
        },
{
    if let ParseResult::Full(result) = r {
        let json = prepared.decoded->Ok_0;
        assert(result@.total == all_specs(json.suites@).len());
        assert(result@.passed == json.stats.expected);
        assert(result@.failed == json.stats.unexpected);
        assert(result@.skipped == json.stats.skipped);
    }
}

/// Text that is no document is understood in part where it counts tests, and a
/// single warning says why it is no document.
pub proof fn law_text_is_understood_in_part(
    input: Seq<char>,
    prepared: Prepared,
    r: ParseResult<TestResult>,
)
    requires
        prepared.decoded is Err,
        is_parse_of(input, prepared, r),
        shown_counts(input).passed > 0 || shown_counts(input).failed > 0 || shown_counts(
            input,
        ).skipped > 0,
    ensures
        r matches ParseResult::Degraded(result, warnings) && {
            &&& Some(result@) == shown_result(input, prepared.duration_ms)
            &&& result.passed == shown_counts(input).passed
            &&& result.failed == shown_counts(input).failed
            &&& result.skipped == shown_counts(input).skipped
            &&& result.total == result.passed + result.failed + result.skipped
            &&& result.duration_ms == prepared.duration_ms
            &&& warnings@.len() == 1
            &&& warnings@[0]@ == "JSON parse failed: "@ + prepared.decoded->Err_0@
        },
{
    if let ParseResult::Degraded(result, _) = r {
        assert(Some(result@) == shown_result(input, prepared.duration_ms));
        assert(result@.total == shown_counts(input).total());
        assert(result@.passed == shown_counts(input).passed);
        assert(result@.failed == shown_counts(input).failed);
        assert(result@.skipped == shown_counts(input).skipped);
    }
}

/// Text that counts no test is passed on.
pub proof fn law_other_text_is_passed_on(
    input: Seq<char>,
    prepared: Prepared,
    r: ParseResult<TestResult>,
)
    requires
        prepared.decoded is Err,
        is_parse_of(input, prepared, r),
        shown_counts(input).passed == 0,
        shown_counts(input).failed == 0,
        shown_counts(input).skipped == 0,
    ensures
        r matches ParseResult::Passthrough(s) && s@ == prepared.passthrough@,
{
}

/// What is shown of a document is the report on its failed specs. What is shown of
/// other text is what parsing makes of it, with nothing added and nothing lost.
pub proof fn law_reports(
    stdout: Seq<char>,
    prepared: Prepared,
    report: TestReport,
    r: ParseResult<TestResult>,
)
    requires
        is_report_of(stdout, prepared, report),
        is_parse_of(stdout, prepared, r),
    ensures
        prepared.decoded matches Ok(json) ==> (report matches TestReport::Rich(s) && s@
            == rich_report(json.stats, failing(all_specs(json.suites@)))),
        prepared.decoded is Err ==> (r matches ParseResult::Degraded(result, warnings) ==> (
        report matches TestReport::Result(shown, notes) && shown@ == result@ && notes@.len()
            == warnings@.len() && notes@[0]@ == warnings@[0]@)),
        prepared.decoded is Err ==> (r matches ParseResult::Passthrough(text) ==> (
        report matches TestReport::Passthrough(s) && s@ == text@)),
{
}

/// Parsing is possible where the number of tests fits: that of the specs in the
/// document, or the sum of the counts in the text.
pub proof fn law_countable(input: Seq<char>, prepared: Prepared)
    ensures
        prepared.decoded matches Ok(json) ==> (can_count(input, prepared) <==> all_specs(
            json.suites@,
        ).len() <= usize::MAX),
        prepared.decoded is Err ==> (can_count(input, prepared) <==> shown_counts(input).passed
            + shown_counts(input).failed + shown_counts(input).skipped <= usize::MAX),
{
}

} // verus!
