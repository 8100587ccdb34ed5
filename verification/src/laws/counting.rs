//! What is read of the text of a run, said of the matches in it.

use vstd::prelude::*;
use crate::pattern::{regex_captures_iter, DURATION_PATTERN};
use crate::results::FailureView;
use crate::summary::{
    counted_result, counts_fit, counts_of, last_count, matched_failures, shown_counts, shown_result,
    unit_millis, Counts,
};
use crate::text;

verus! {

/// The failures of matches are those of the first matches and then those of the
/// others.
pub proof fn law_failures_of_matches(
    a: Seq<Seq<Option<Seq<char>>>>,
    b: Seq<Seq<Option<Seq<char>>>>,
)
    ensures
        matched_failures(seq![]) == Seq::<FailureView>::empty(),
        matched_failures(a + b) == matched_failures(a) + matched_failures(b),
    decreases b.len(),
{
    if b.len() == 0 {
        assert(a + b == a);
        assert(matched_failures(a) + matched_failures(b) == matched_failures(a));
    } else {
        law_failures_of_matches(a, b.drop_last());
        assert((a + b).drop_last() == a + b.drop_last());
        assert((a + b).last() == b.last());
        assert(matched_failures(a + b) == matched_failures(a) + matched_failures(b));
    }
}

/// There is one failure for each match that names a file, whatever the other
/// matches name. It is called what the whole match is, and has no message.
pub proof fn law_a_failure_for_each_match(matches: Seq<Seq<Option<Seq<char>>>>)
    requires
        forall|i: int| 0 <= i < matches.len() ==> (#[trigger] matches[i])[1] is Some,
    ensures
        matched_failures(matches).len() == matches.len(),
        forall|i: int|
            0 <= i < matches.len() ==> {
                &&& (#[trigger] matched_failures(matches)[i]).test_name == matches[i][0]->0
                &&& Some(matched_failures(matches)[i].file_path) == matches[i][1]
                &&& matched_failures(matches)[i].error_message.len() == 0
                &&& matched_failures(matches)[i].stack_trace is None
            },
    decreases matches.len(),
{
    if matches.len() > 0 {
        let short = matches.drop_last();
        assert forall|i: int| 0 <= i < short.len() implies (#[trigger] short[i])[1] is Some by {
            assert(matches[i][1] is Some);
        }
        law_a_failure_for_each_match(short);
        assert(matches[matches.len() - 1][1] is Some);
        let all = matched_failures(matches);
        assert forall|i: int| 0 <= i < matches.len() implies {
            &&& (#[trigger] all[i]).test_name == matches[i][0]->0
            &&& Some(all[i].file_path) == matches[i][1]
            &&& all[i].error_message.len() == 0
            &&& all[i].stack_trace is None
        } by {
            if i < short.len() {
                assert(all[i] == matched_failures(short)[i]);
                assert(short[i] == matches[i]);
            }
        }
    }
}

/// A match that names no file shows no failure.
pub proof fn law_no_failure_without_a_file(one: Seq<Option<Seq<char>>>)
    requires
        one[1] is None,
    ensures
        matched_failures(seq![one]) == Seq::<FailureView>::empty(),
{
    reveal_with_fuel(matched_failures, 2);
    assert(seq![one].last() == one);
    assert(seq![one].drop_last().len() == 0);
}

/// The last match that counts `word` decides its count. A number that does not fit
/// counts as zero.
pub proof fn law_the_last_count_holds(
    matches: Seq<Seq<Option<Seq<char>>>>,
    k: int,
    word: Seq<char>,
)
    requires
        0 <= k < matches.len(),
        matches[k][2] == Some(word),
        forall|j: int| k < j < matches.len() ==> (#[trigger] matches[j])[2] != Some(word),
    ensures
        ({
            let count = match text::parse_usize(matches[k][1]->0) {
                Some(n) => n,
                None => 0,
            };
            &&& word == "passed"@ ==> counts_of(matches).passed == count
            &&& word == "failed"@ ==> counts_of(matches).failed == count
            &&& word == "skipped"@ ==> counts_of(matches).skipped == count
        }),
{
    lemma_last_count(matches, k, word);
}

proof fn lemma_last_count(matches: Seq<Seq<Option<Seq<char>>>>, k: int, word: Seq<char>)
    requires
        0 <= k < matches.len(),
        matches[k][2] == Some(word),
        forall|j: int| k < j < matches.len() ==> (#[trigger] matches[j])[2] != Some(word),
    ensures
        last_count(matches, word) == match text::parse_usize(matches[k][1]->0) {
            Some(n) => n,
            None => 0,
        },
    decreases matches.len(),
{
    if k < matches.len() - 1 {
        let short = matches.drop_last();
        assert(matches[matches.len() - 1][2] != Some(word));
        assert forall|j: int| k < j < short.len() implies (#[trigger] short[j])[2] != Some(
            word,
        ) by {
            assert(short[j] == matches[j]);
        }
        assert(short[k] == matches[k]);
        lemma_last_count(short, k, word);
    }
}

/// What no match counts is zero.
pub proof fn law_what_is_not_counted_is_zero(
    matches: Seq<Seq<Option<Seq<char>>>>,
    word: Seq<char>,
)
    requires
        forall|j: int| 0 <= j < matches.len() ==> (#[trigger] matches[j])[2] != Some(word),
    ensures
        word == "passed"@ ==> counts_of(matches).passed == 0,
        word == "failed"@ ==> counts_of(matches).failed == 0,
        word == "skipped"@ ==> counts_of(matches).skipped == 0,
{
    lemma_no_count(matches, word);
}

proof fn lemma_no_count(matches: Seq<Seq<Option<Seq<char>>>>, word: Seq<char>)
    requires
        forall|j: int| 0 <= j < matches.len() ==> (#[trigger] matches[j])[2] != Some(word),
    ensures
        last_count(matches, word) == 0,
    decreases matches.len(),
{
    if matches.len() > 0 {
        let short = matches.drop_last();
        assert(matches[matches.len() - 1][2] != Some(word));
        assert forall|j: int| 0 <= j < short.len() implies (#[trigger] short[j])[2] != Some(
            word,
        ) by {
            assert(short[j] == matches[j]);
        }
        lemma_no_count(short, word);
    }
}

/// There is a result if and only if something was counted. It holds the counts,
/// their sum, and the duration and the failures as they are.
pub proof fn law_counted_result(
    counts: Counts,
    duration_ms: Option<u64>,
    failures: Seq<FailureView>,
)
    ensures
        counted_result(counts, duration_ms, failures) is None <==> counts.passed == 0
            && counts.failed == 0 && counts.skipped == 0,
        counted_result(counts, duration_ms, failures) matches Some(r) ==> {
            &&& r.total == counts.passed + counts.failed + counts.skipped
            &&& r.passed == counts.passed
            &&& r.failed == counts.failed
            &&& r.skipped == counts.skipped
            &&& r.duration_ms == duration_ms
            &&& r.failures == failures
        },
{
}

/// Counts and failures are read from the text without its colours.
pub proof fn law_shown_result(output: Seq<char>, duration_ms: Option<u64>)
    ensures
        shown_counts(output) == counts_of(
            regex_captures_iter(
                r"(\d+)\s+(passed|failed|flaky|skipped)"@,
                text::strip_ansi(output),
            ),
        ),
        shown_result(output, duration_ms) == counted_result(
            shown_counts(output),
            duration_ms,
            matched_failures(
                regex_captures_iter(
                    r"[×✗]\s+.*?›\s+([^›]+\.spec\.[tj]sx?)"@,
                    text::strip_ansi(output),
                ),
            ),
        ),
        counts_fit(output) <==> shown_counts(output).passed + shown_counts(output).failed
            + shown_counts(output).skipped <= usize::MAX,
{
}

/// A second is a thousand milliseconds, and a minute sixty seconds. Any other unit
/// is a millisecond.
pub proof fn law_units(unit: Seq<char>)
    ensures
        unit_millis("s"@) == 1000,
        unit_millis("m"@) == 60 * unit_millis("s"@),
        unit != "s"@ && unit != "m"@ ==> unit_millis(unit) == 1,
{
    reveal_strlit("s");
    reveal_strlit("m");
    assert("s"@[0] != "m"@[0]);
}

/// A duration is a number, with or without decimals, and a unit, in brackets.
pub proof fn law_duration_pattern()
    ensures
        DURATION_PATTERN@ == r"\((\d+(?:\.\d+)?)(ms|s|m)\)"@,
{
}

} // verus!
