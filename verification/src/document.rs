//! The report that Playwright's JSON reporter writes: suites hold specs and
//! further suites, a spec holds its executions, an execution its attempts.

use vstd::prelude::*;
use crate::chars::same;
use crate::results::{failure_views, FailureView, TestFailure};

verus! {

/// A whole report.
#[derive(Debug)]
pub struct PlaywrightJsonOutput {
    pub stats: PlaywrightStats,
    pub suites: Vec<PlaywrightSuite>,
}

/// The totals of a run.
#[derive(Debug)]
pub struct PlaywrightStats {
    pub expected: usize,
    pub unexpected: usize,
    pub skipped: usize,
    /// The duration in whole milliseconds.
    pub duration: u64,
}

/// The tests of a file or of a describe block.
#[derive(Debug)]
pub struct PlaywrightSuite {
    pub title: String,
    pub file: Option<String>,
    /// The test functions of the suite itself.
    pub specs: Vec<PlaywrightSpec>,
    /// The describe blocks in it.
    pub suites: Vec<PlaywrightSuite>,
}

/// A test function, which may run in several browsers or projects.
#[derive(Debug)]
pub struct PlaywrightSpec {
    pub title: String,
    /// Whether it passed in all of them.
    pub ok: bool,
    pub tests: Vec<PlaywrightExecution>,
}

/// The runs of a test in one browser or project.
#[derive(Debug)]
pub struct PlaywrightExecution {
    /// `expected`, `unexpected`, `skipped` or `flaky`.
    pub status: String,
    pub results: Vec<PlaywrightAttempt>,
}

/// One run of a test.
#[derive(Debug)]
pub struct PlaywrightAttempt {
    /// `passed`, `failed`, `timedOut` or `interrupted`.
    pub status: String,
    pub errors: Vec<PlaywrightError>,
    pub attachments: Vec<PlaywrightAttachment>,
    pub stdout: Vec<PlaywrightStream>,
    pub stderr: Vec<PlaywrightStream>,
}

/// What went wrong in an attempt.
#[derive(Debug)]
pub struct PlaywrightError {
    pub message: String,
    pub stack: Option<String>,
    pub snippet: Option<String>,
}

/// A video, a screenshot or a trace. Only the path is of interest here.
#[derive(Debug)]
pub struct PlaywrightAttachment {
    pub name: String,
    pub path: Option<String>,
}

/// A piece of what an attempt wrote to stdout or stderr.
#[derive(Debug)]
pub struct PlaywrightStream {
    pub text: Option<String>,
}

/// A spec and the file that it stands in.
pub struct Located {
    pub file: Seq<char>,
    pub spec: PlaywrightSpec,
}

/// The file that a suite is about: its title where it names no file.
pub open spec fn suite_file(suite: PlaywrightSuite) -> Seq<char> {
    match suite.file {
        Some(file) => file@,
        None => suite.title@,
    }
}

/// The specs of a suite itself, in order.
pub open spec fn own_specs(suite: PlaywrightSuite) -> Seq<Located> {
    suite.specs@.map_values(|spec: PlaywrightSpec| Located { file: suite_file(suite), spec })
}

/// The specs of `suites`, at any depth. Those of a suite itself come before
/// those of the suites in it.
pub open spec fn all_specs(suites: Seq<PlaywrightSuite>) -> Seq<Located>
    decreases suites,
{
    if suites.len() == 0 {
        seq![]
    } else {
        all_specs(suites.drop_last()) + own_specs(suites.last()) + all_specs(suites.last().suites@)
    }
}

/// Those of `specs` that failed.
pub open spec fn failing(specs: Seq<Located>) -> Seq<Located> {
    specs.filter(|l: Located| !l.spec.ok)
}

/// The first execution with the status `unexpected`.
pub open spec fn first_unexpected(tests: Seq<PlaywrightExecution>) -> Option<PlaywrightExecution>
    decreases tests.len(),
{
    if tests.len() == 0 {
        None
    } else if tests[0].status@ == "unexpected"@ {
        Some(tests[0])
    } else {
        first_unexpected(tests.skip(1))
    }
}

/// The first attempt that failed or ran out of time.
pub open spec fn first_failed(results: Seq<PlaywrightAttempt>) -> Option<PlaywrightAttempt>
    decreases results.len(),
{
    if results.len() == 0 {
        None
    } else if results[0].status@ == "failed"@ || results[0].status@ == "timedOut"@ {
        Some(results[0])
    } else {
        first_failed(results.skip(1))
    }
}

/// The message of the first error of the first failed attempt of the first
/// unexpected execution, or else `Test failed`.
pub open spec fn error_message(spec: PlaywrightSpec) -> Seq<char> {
    match first_unexpected(spec.tests@) {
        Some(test) => match first_failed(test.results@) {
            Some(attempt) => if attempt.errors@.len() > 0 {
                attempt.errors@[0].message@
            } else {
                "Test failed"@
            },
            None => "Test failed"@,
        },
        None => "Test failed"@,
    }
}

/// The failure that a failed spec is reported as.
pub open spec fn failure_of(l: Located) -> FailureView {
    FailureView {
        test_name: l.spec.title@,
        file_path: l.file,
        error_message: error_message(l.spec),
        stack_trace: None,
    }
}

/// The failures that the failed ones among `specs` are reported as.
pub open spec fn failures_of(specs: Seq<Located>) -> Seq<FailureView> {
    failing(specs).map_values(|l: Located| failure_of(l))
}

/// The first execution with the status `unexpected`.
pub fn find_unexpected(tests: &[PlaywrightExecution]) -> (r: Option<&PlaywrightExecution>)
    ensures
        match r {
            Some(test) => first_unexpected(tests@) == Some(*test),
            None => first_unexpected(tests@) is None,
        },
{
    let mut i: usize = 0;
    assert(tests@.skip(0) == tests@);
    while i < tests.len()
        invariant
            i <= tests.len(),
            first_unexpected(tests@) == first_unexpected(tests@.skip(i as int)),
        decreases tests.len() - i,
    {
        if same(tests[i].status.as_str(), "unexpected") {
            return Some(&tests[i]);
        }
        assert(tests@.skip(i as int).skip(1) == tests@.skip(i + 1));
        i += 1;
    }
    None
}

/// The first attempt that failed or ran out of time.
pub fn find_failed(results: &[PlaywrightAttempt]) -> (r: Option<&PlaywrightAttempt>)
    ensures
        match r {
            Some(attempt) => first_failed(results@) == Some(*attempt),
            None => first_failed(results@) is None,
        },
{
    let mut i: usize = 0;
    assert(results@.skip(0) == results@);
    while i < results.len()
        invariant
            i <= results.len(),
            first_failed(results@) == first_failed(results@.skip(i as int)),
        decreases results.len() - i,
    {
        if same(results[i].status.as_str(), "failed") || same(
            results[i].status.as_str(),
            "timedOut",
        ) {
            return Some(&results[i]);
        }
        assert(results@.skip(i as int).skip(1) == results@.skip(i + 1));
        i += 1;
    }
    None
}

/// The message that a failed spec is reported with.
fn spec_error_message(spec: &PlaywrightSpec) -> (r: String)
    ensures
        r@ == error_message(*spec),
{
    if let Some(test) = find_unexpected(spec.tests.as_slice()) {
        if let Some(attempt) = find_failed(test.results.as_slice()) {
            if attempt.errors.len() > 0 {
                return attempt.errors[0].message.clone();
            }
        }
    }
    "Test failed".to_owned()
}

/// The file that a suite is about.
pub fn file_of(suite: &PlaywrightSuite) -> (r: &str)
    ensures
        r@ == suite_file(*suite),
{
    match &suite.file {
        Some(file) => file.as_str(),
        None => suite.title.as_str(),
    }
}

/// Counts the specs of `suites` and reports those that failed.
pub fn collect_test_results(
    suites: &[PlaywrightSuite],
    total: &mut usize,
    failures: &mut Vec<TestFailure>,
)
    requires
        *old(total) + all_specs(suites@).len() <= usize::MAX,
    ensures
        *final(total) == *old(total) + all_specs(suites@).len(),
        failure_views(final(failures)@) == failure_views(old(failures)@) + failures_of(
            all_specs(suites@),
        ),
    decreases suites@,
{
    let mut i: usize = 0;
    assert(suites@.take(0) == Seq::<PlaywrightSuite>::empty());
    proof {
        lemma_failures_of_empty();
    }
    while i < suites.len()
        invariant
            i <= suites.len(),
            *old(total) + all_specs(suites@).len() <= usize::MAX,
            *total == *old(total) + all_specs(suites@.take(i as int)).len(),
            failure_views(failures@) == failure_views(old(failures)@) + failures_of(
                all_specs(suites@.take(i as int)),
            ),
        decreases suites.len() - i,
    {
        let suite = &suites[i];
        let ghost done = all_specs(suites@.take(i as int));
        let ghost own = own_specs(*suite);
        proof {
            lemma_all_specs_step(suites@, i as int);
            lemma_all_specs_prefix(suites@, i + 1);
        }
        let mut j: usize = 0;
        assert(own.take(0) == Seq::<Located>::empty());
        assert(done + own.take(0) == done);
        while j < suite.specs.len()
            invariant
                j <= suite.specs.len(),
                own == own_specs(*suite),
                *old(total) + done.len() + own.len() <= usize::MAX,
                *total == *old(total) + done.len() + j,
                failure_views(failures@) == failure_views(old(failures)@) + failures_of(
                    done + own.take(j as int),
                ),
            decreases suite.specs.len() - j,
        {
            let spec = &suite.specs[j];
            *total += 1;
            let ghost before = failures@;
            assert(done + own.take(j + 1) == (done + own.take(j as int)).push(own[j as int]));
            proof {
                lemma_failures_of_push(done + own.take(j as int), own[j as int]);
            }
            if !spec.ok {
                let error_message = spec_error_message(spec);
                failures.push(
                    TestFailure {
                        test_name: spec.title.clone(),
                        file_path: file_of(suite).to_owned(),
                        error_message,
                        stack_trace: None,
                    },
                );
                assert(failure_views(failures@) == failure_views(before).push(
                    failure_of(own[j as int]),
                ));
            }
            j += 1;
        }
        assert(own.take(j as int) == own);
        let ghost nested = all_specs(suite.suites@);
        proof {
            lemma_failures_of_add(done + own, nested);
        }
        collect_test_results(suite.suites.as_slice(), total, failures);
        i += 1;
    }
    assert(suites@.take(i as int) == suites@);
}

/// How many specs `suites` holds, if the number is one that fits.
pub fn count_specs(suites: &[PlaywrightSuite]) -> (r: Option<usize>)
    ensures
        match r {
            Some(n) => n == all_specs(suites@).len(),
            None => all_specs(suites@).len() > usize::MAX,
        },
    decreases suites@,
{
    let mut total: usize = 0;
    let mut i: usize = 0;
    assert(suites@.take(0) == Seq::<PlaywrightSuite>::empty());
    while i < suites.len()
        invariant
            i <= suites.len(),
            total == all_specs(suites@.take(i as int)).len(),
        decreases suites.len() - i,
    {
        let suite = &suites[i];
        proof {
            lemma_all_specs_step(suites@, i as int);
            lemma_all_specs_prefix(suites@, i + 1);
        }
        let own: usize = suite.specs.len();
        let nested: usize = match count_specs(suite.suites.as_slice()) {
            Some(n) => n,
            None => {
                return None;
            },
        };
        if own > usize::MAX - total || nested > usize::MAX - total - own {
            return None;
        }
        total = total + own + nested;
        i += 1;
    }
    assert(suites@.take(i as int) == suites@);
    Some(total)
}

proof fn lemma_failures_of_empty()
    ensures
        failures_of(seq![]) == Seq::<FailureView>::empty(),
{
    reveal_with_fuel(Seq::filter, 1);
}

pub proof fn lemma_failing_push(specs: Seq<Located>, l: Located)
    ensures
        failing(specs.push(l)) == if l.spec.ok {
            failing(specs)
        } else {
            failing(specs).push(l)
        },
{
    reveal_with_fuel(Seq::filter, 2);
    assert(specs.push(l).drop_last() == specs);
}

proof fn lemma_failures_of_push(specs: Seq<Located>, l: Located)
    ensures
        failures_of(specs.push(l)) == if l.spec.ok {
            failures_of(specs)
        } else {
            failures_of(specs).push(failure_of(l))
        },
{
    lemma_failing_push(specs, l);
}

pub proof fn lemma_failing_add(a: Seq<Located>, b: Seq<Located>)
    ensures
        failing(a + b) == failing(a) + failing(b),
    decreases b.len(),
{
    if b.len() == 0 {
        reveal_with_fuel(Seq::filter, 1);
        assert(a + b == a);
    } else {
        lemma_failing_add(a, b.drop_last());
        lemma_failing_push(a + b.drop_last(), b.last());
        lemma_failing_push(b.drop_last(), b.last());
        assert((a + b.drop_last()).push(b.last()) == a + b);
        assert(b.drop_last().push(b.last()) == b);
    }
}

proof fn lemma_failures_of_add(a: Seq<Located>, b: Seq<Located>)
    ensures
        failures_of(a + b) == failures_of(a) + failures_of(b),
{
    lemma_failing_add(a, b);
}

/// One suite more.
pub proof fn lemma_all_specs_step(suites: Seq<PlaywrightSuite>, i: int)
    requires
        0 <= i < suites.len(),
    ensures
        all_specs(suites.take(i + 1)) == all_specs(suites.take(i)) + own_specs(suites[i])
            + all_specs(suites[i].suites@),
{
    assert(suites.take(i + 1).drop_last() == suites.take(i));
}

/// The first suites hold no more specs than all of them.
pub proof fn lemma_all_specs_prefix(suites: Seq<PlaywrightSuite>, n: int)
    requires
        0 <= n <= suites.len(),
    ensures
        all_specs(suites.take(n)).len() <= all_specs(suites).len(),
    decreases suites.len() - n,
{
    if n == suites.len() {
        assert(suites.take(n) == suites);
    } else {
        lemma_all_specs_step(suites, n);
        lemma_all_specs_prefix(suites, n + 1);
    }
}

} // verus!
