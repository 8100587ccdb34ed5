//! What can be read of a test run from the text that Playwright prints, where
//! there is no JSON document.

use vstd::prelude::*;
use crate::chars;
use crate::pattern::{
    all_groups_present, captures, captures_iter, groups_present, regex_captures,
    regex_captures_iter, DURATION_PATTERN, SUMMARY_PATTERN, TEST_PATTERN,
};
use crate::results::{failure_views, FailureView, ResultView, TestFailure, TestResult};
use crate::text;

verus! {

/// The counts of a run.
#[derive(Debug, Clone, Copy, PartialEq, Eq, Structural)]
pub struct Counts {
    pub passed: usize,
    pub failed: usize,
    pub skipped: usize,
}

impl Counts {
    /// How many tests there are in all.
    pub open spec fn total(self) -> nat {
        (self.passed + self.failed + self.skipped) as nat
    }
}

/// The count in the last match that counts `word`. Zero where no match does, or
/// where the count cannot be read.
pub open spec fn last_count(matches: Seq<Seq<Option<Seq<char>>>>, word: Seq<char>) -> usize
    decreases matches.len(),
{
    if matches.len() == 0 {
        0
    } else if matches.last()[2] == Some(word) {
        match text::parse_usize(matches.last()[1]->0) {
            Some(n) => n,
            None => 0,
        }
    } else {
        last_count(matches.drop_last(), word)
    }
}

/// The counts that the matches come to.
pub open spec fn counts_of(matches: Seq<Seq<Option<Seq<char>>>>) -> Counts {
    Counts {
        passed: last_count(matches, "passed"@),
        failed: last_count(matches, "failed"@),
        skipped: last_count(matches, "skipped"@),
    }
}

/// The failures that the matches show, one for each that names a file.
pub open spec fn matched_failures(matches: Seq<Seq<Option<Seq<char>>>>) -> Seq<FailureView>
    decreases matches.len(),
{
    if matches.len() == 0 {
        seq![]
    } else {
        let rest = matched_failures(matches.drop_last());
        match matches.last()[1] {
            Some(file) => rest.push(
                FailureView {
                    test_name: matches.last()[0]->0,
                    file_path: file,
                    error_message: seq![],
                    stack_trace: None,
                },
            ),
            None => rest,
        }
    }
}

/// The result that counts, a duration and failures make, where there are tests.
pub open spec fn counted_result(
    counts: Counts,
    duration_ms: Option<u64>,
    failures: Seq<FailureView>,
) -> Option<ResultView> {
    if counts.total() > 0 {
        Some(
            ResultView {
                total: counts.total(),
                passed: counts.passed as nat,
                failed: counts.failed as nat,
                skipped: counts.skipped as nat,
                duration_ms,
                failures,
            },
        )
    } else {
        None
    }
}

/// The counts that `output` shows.
pub open spec fn shown_counts(output: Seq<char>) -> Counts {
    counts_of(regex_captures_iter(SUMMARY_PATTERN@, text::strip_ansi(output)))
}

/// The number of tests that `output` shows is one that fits.
pub open spec fn counts_fit(output: Seq<char>) -> bool {
    shown_counts(output).total() <= usize::MAX
}

/// The result that `output` shows, where it shows that there are tests.
pub open spec fn shown_result(output: Seq<char>, duration_ms: Option<u64>) -> Option<ResultView> {
    counted_result(
        shown_counts(output),
        duration_ms,
        matched_failures(regex_captures_iter(TEST_PATTERN@, text::strip_ansi(output))),
    )
}

/// How many milliseconds the unit of a duration stands for.
pub open spec fn unit_millis(unit: Seq<char>) -> u32 {
    if unit == "s"@ {
        1000
    } else if unit == "m"@ {
        60000
    } else {
        1
    }
}

/// A duration as it is printed.
#[derive(Debug)]
pub struct ReportedDuration {
    /// The number, with or without a decimal point.
    pub value: String,
    /// What to multiply it by to get milliseconds.
    pub millis_per_unit: u32,
}

/// The counts that the matches of `SUMMARY_PATTERN` come to.
pub fn tally(matches: &Vec<Vec<Option<String>>>) -> (r: Counts)
    requires
        all_groups_present(matches@, 3),
    ensures
        r == counts_of(matches.deep_view()),
{
    let ghost all = matches.deep_view();
    let mut passed: usize = 0;
    let mut failed: usize = 0;
    let mut skipped: usize = 0;
    let mut i: usize = 0;
    while i < matches.len()
        invariant
            i <= matches.len(),
            all_groups_present(matches@, 3),
            all == matches.deep_view(),
            passed == last_count(all.take(i as int), "passed"@),
            failed == last_count(all.take(i as int), "failed"@),
            skipped == last_count(all.take(i as int), "skipped"@),
        decreases matches.len() - i,
    {
        let groups = &matches[i];
        assert(groups_present(matches@[i as int]@, 3));
        assert(groups@[1] is Some && groups@[2] is Some);
        proof {
            assert(all.take(i + 1).drop_last() == all.take(i as int));
            assert(all.take(i + 1).last() == groups.deep_view());
            reveal_strlit("passed");
            reveal_strlit("failed");
            reveal_strlit("skipped");
            assert("passed"@[0] != "failed"@[0]);
            assert("passed"@[0] != "skipped"@[0]);
            assert("failed"@[0] != "skipped"@[0]);
        }
        if let (Some(number), Some(word)) = (&groups[1], &groups[2]) {
            let count: usize = match chars::parse_usize(
                chars::to_chars(number.as_str()).as_slice(),
            ) {
                Some(n) => n,
                None => 0,
            };
            if chars::same(word.as_str(), "passed") {
                passed = count;
            } else if chars::same(word.as_str(), "failed") {
                failed = count;
            } else if chars::same(word.as_str(), "skipped") {
                skipped = count;
            }
        }
        i += 1;
    }
    assert(all.take(i as int) == all);
    Counts { passed, failed, skipped }
}

/// The failures that the matches of `TEST_PATTERN` show.
pub fn failures_from_matches(matches: &Vec<Vec<Option<String>>>) -> (r: Vec<TestFailure>)
    requires
        all_groups_present(matches@, 2),
    ensures
        failure_views(r@) == matched_failures(matches.deep_view()),
{
    let ghost all = matches.deep_view();
    let mut failures: Vec<TestFailure> = Vec::new();
    let mut i: usize = 0;
    assert(failure_views(failures@) == matched_failures(all.take(0)));
    while i < matches.len()
        invariant
            i <= matches.len(),
            all_groups_present(matches@, 2),
            all == matches.deep_view(),
            failure_views(failures@) == matched_failures(all.take(i as int)),
        decreases matches.len() - i,
    {
        let groups = &matches[i];
        let ghost before = failures@;
        assert(groups_present(matches@[i as int]@, 2));
        assert(groups@[0] is Some && groups@[1] is Some);
        proof {
            assert(all.take(i + 1).drop_last() == all.take(i as int));
            assert(all.take(i + 1).last() == groups.deep_view());
        }
        if let (Some(whole), Some(file)) = (&groups[0], &groups[1]) {
            failures.push(
                TestFailure {
                    test_name: whole.clone(),
                    file_path: file.clone(),
                    error_message: String::new(),
                    stack_trace: None,
                },
            );
            assert(failure_views(failures@) == failure_views(before).push(
                FailureView {
                    test_name: whole@,
                    file_path: file@,
                    error_message: seq![],
                    stack_trace: None,
                },
            ));
        }
        i += 1;
    }
    assert(all.take(i as int) == all);
    failures
}

/// The result that counts, a duration and failures make, where there are tests.
pub fn result_from_counts(
    counts: Counts,
    duration_ms: Option<u64>,
    failures: Vec<TestFailure>,
) -> (r: Option<TestResult>)
    requires
        counts.total() <= usize::MAX,
    ensures
        match r {
            Some(result) => counted_result(counts, duration_ms, failure_views(failures@)) == Some(
                result@,
            ),
            None => counted_result(counts, duration_ms, failure_views(failures@)) is None,
        },
{
    let total: usize = counts.passed + counts.failed + counts.skipped;
    if total > 0 {
        Some(
            TestResult {
                total,
                passed: counts.passed,
                failed: counts.failed,
                skipped: counts.skipped,
                duration_ms,
                failures,
            },
        )
    } else {
        None
    }
}

/// The duration that the groups of a match of `DURATION_PATTERN` show.
pub fn duration_from_groups(groups: &Vec<Option<String>>) -> (r: ReportedDuration)
    requires
        groups_present(groups@, 3),
    ensures
        Some(r.value@) == groups.deep_view()[1],
        r.millis_per_unit == unit_millis(groups.deep_view()[2]->0),
{
    assert(groups@[1] is Some && groups@[2] is Some);
    let value = match &groups[1] {
        Some(value) => value.clone(),
        None => String::new(),
    };
    let millis_per_unit: u32 = match &groups[2] {
        Some(unit) => if chars::same(unit.as_str(), "s") {
            1000
        } else if chars::same(unit.as_str(), "m") {
            60000
        } else {
            1
        },
        None => 1,
    };
    ReportedDuration { value, millis_per_unit }
}

/// The first duration that `output` shows.
pub fn find_duration(output: &str) -> (r: Option<ReportedDuration>)
    ensures
        match r {
            Some(d) => {
                let groups = regex_captures(DURATION_PATTERN@, text::strip_ansi(output@));
                &&& groups is Some
                &&& groups->0[1] == Some(d.value@)
                &&& d.millis_per_unit == unit_millis(groups->0[2]->0)
            },
            None => regex_captures(DURATION_PATTERN@, text::strip_ansi(output@)) is None,
        },
{
    let clean = without_colours(output);
    match captures(DURATION_PATTERN, clean.as_str()) {
        Some(groups) => Some(duration_from_groups(&groups)),
        None => None,
    }
}

/// `output` without colours.
fn without_colours(output: &str) -> (r: String)
    ensures
        r@ == text::strip_ansi(output@),
{
    chars::to_text(chars::strip_ansi(chars::to_chars(output).as_slice()).as_slice())
}

/// The failed tests that `output` lists.
pub fn extract_failures_regex(output: &str) -> (r: Vec<TestFailure>)
    ensures
        failure_views(r@) == matched_failures(regex_captures_iter(TEST_PATTERN@, output@)),
{
    failures_from_matches(&captures_iter(TEST_PATTERN, output))
}

/// The counts that `output` shows.
pub fn extract_counts(output: &str) -> (r: Counts)
    ensures
        r == shown_counts(output@),
{
    let clean = without_colours(output);
    tally(&captures_iter(SUMMARY_PATTERN, clean.as_str()))
}

/// The result that `output` shows, where it shows that there are tests. Its
/// duration, which is read by `find_duration`, is given.
pub fn extract_playwright_regex(output: &str, duration_ms: Option<u64>) -> (r: Option<TestResult>)
    requires
        counts_fit(output@),
    ensures
        match r {
            Some(result) => shown_result(output@, duration_ms) == Some(result@),
            None => shown_result(output@, duration_ms) is None,
        },
{
    let counts = extract_counts(output);
    let clean = without_colours(output);
    result_from_counts(counts, duration_ms, extract_failures_regex(clean.as_str()))
}

} // verus!
