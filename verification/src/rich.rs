//! The report of a run whose JSON document was read: a block for each failed
//! test, with its error, its artifacts and the end of what it printed.

use vstd::prelude::*;
use vstd::slice::slice_subrange;
use crate::chars;
use crate::document::{
    all_specs, failing, file_of, find_unexpected, first_unexpected, lemma_all_specs_step,
    lemma_failing_add, lemma_failing_push, own_specs, suite_file, Located, PlaywrightAttachment,
    PlaywrightAttempt, PlaywrightError, PlaywrightExecution, PlaywrightJsonOutput, PlaywrightSpec,
    PlaywrightStats, PlaywrightStream, PlaywrightSuite,
};
use crate::excerpt::{trim_snippet, trim_stack, trimmed_snippet, trimmed_stack};
use crate::text;

verus! {

/// How many characters of what a failed test printed are shown.
pub const STDOUT_TAIL_CAP: usize = 500;

/// The execution that the block of a failed spec is about: the first unexpected
/// one, or else the first.
pub open spec fn shown_execution(spec: PlaywrightSpec) -> Option<PlaywrightExecution> {
    match first_unexpected(spec.tests@) {
        Some(test) => Some(test),
        None => if spec.tests@.len() > 0 {
            Some(spec.tests@[0])
        } else {
            None
        },
    }
}

/// The lines of the snippet, under a heading.
pub open spec fn snippet_text(snippet: Seq<char>) -> Seq<char> {
    let shown = trimmed_snippet(snippet);
    if shown.len() == 0 {
        seq![]
    } else {
        "   ── snippet ──\n"@ + text::indented(shown)
    }
}

/// The message, the stack and the snippet of an error.
pub open spec fn error_text(error: PlaywrightError) -> Seq<char> {
    text::indented(error.message@) + match error.stack {
        Some(stack) => text::indented(trimmed_stack(stack@)),
        None => seq![],
    } + match error.snippet {
        Some(snippet) => snippet_text(snippet@),
        None => seq![],
    }
}

/// The name and the path of each attachment that has a path.
pub open spec fn named_paths(attachments: Seq<PlaywrightAttachment>) -> Seq<(Seq<char>, Seq<char>)>
    decreases attachments.len(),
{
    if attachments.len() == 0 {
        seq![]
    } else {
        let rest = named_paths(attachments.drop_last());
        match attachments.last().path {
            Some(path) => rest.push((attachments.last().name@, path@)),
            None => rest,
        }
    }
}

/// The names and paths of the attachments of all attempts, in order.
pub open spec fn attached(results: Seq<PlaywrightAttempt>) -> Seq<(Seq<char>, Seq<char>)>
    decreases results.len(),
{
    if results.len() == 0 {
        seq![]
    } else {
        attached(results.drop_last()) + named_paths(results.last().attachments@)
    }
}

/// `items`, each only where it stands first.
pub open spec fn distinct<T>(items: Seq<T>) -> Seq<T>
    decreases items.len(),
{
    if items.len() == 0 {
        seq![]
    } else {
        let rest = distinct(items.drop_last());
        if rest.contains(items.last()) {
            rest
        } else {
            rest.push(items.last())
        }
    }
}

/// The line that shows an artifact: its name, or `file` where it has none, and
/// its path.
pub open spec fn artifact_line(artifact: (Seq<char>, Seq<char>)) -> Seq<char> {
    let label = if artifact.0.len() == 0 {
        "file"@
    } else {
        artifact.0
    };
    "   "@ + text::pad_to(label + ":"@, 12) + " "@ + artifact.1 + "\n"@
}

/// The artifacts of all attempts, each once, under a heading.
pub open spec fn artifacts_text(results: Seq<PlaywrightAttempt>) -> Seq<char> {
    let artifacts = distinct(attached(results));
    if artifacts.len() == 0 {
        seq![]
    } else {
        "   ── artifacts ──\n"@ + text::concat(
            artifacts.map_values(|a: (Seq<char>, Seq<char>)| artifact_line(a)),
        )
    }
}

/// What the pieces of a stream spell.
pub open spec fn stream_text(chunks: Seq<PlaywrightStream>) -> Seq<char>
    decreases chunks.len(),
{
    if chunks.len() == 0 {
        seq![]
    } else {
        stream_text(chunks.drop_last()) + match chunks.last().text {
            Some(t) => t@,
            None => seq![],
        }
    }
}

/// What the attempts printed: for each attempt its stdout, then its stderr.
pub open spec fn printed(results: Seq<PlaywrightAttempt>) -> Seq<char>
    decreases results.len(),
{
    if results.len() == 0 {
        seq![]
    } else {
        printed(results.drop_last()) + stream_text(results.last().stdout@) + stream_text(
            results.last().stderr@,
        )
    }
}

/// The last `n` characters of `s`, or all of them where there are no more.
pub open spec fn last_chars(s: Seq<char>, n: nat) -> Seq<char> {
    if s.len() <= n {
        s
    } else {
        s.skip(s.len() - n)
    }
}

/// The end of what a test printed, without colours and without white space
/// around it.
pub open spec fn printed_tail(output: Seq<char>) -> Seq<char> {
    text::trim(last_chars(text::strip_ansi(output), STDOUT_TAIL_CAP as nat))
}

/// The end of what a test printed, under a heading.
pub open spec fn output_text(output: Seq<char>) -> Seq<char> {
    if text::trim(output).len() == 0 || printed_tail(output).len() == 0 {
        seq![]
    } else {
        "   ── stdout (tail) ──\n"@ + text::indented(printed_tail(output))
    }
}

/// The note on how often a test was tried again.
pub open spec fn retry_text(attempts: nat) -> Seq<char> {
    if attempts > 1 {
        "   retries: "@ + text::decimal((attempts - 1) as nat)
            + " (artifact paths deduped by name+path)\n"@
    } else {
        seq![]
    }
}

/// The line that a block starts with, after an empty line.
pub open spec fn block_heading(failed: Located, number: nat) -> Seq<char> {
    "\n"@ + text::decimal(number) + ". "@ + failed.spec.title@ + " ("@ + failed.file + ")\n"@
}

/// The first error of an attempt.
pub open spec fn first_error_text(attempt: PlaywrightAttempt) -> Seq<char> {
    if attempt.errors@.len() > 0 {
        error_text(attempt.errors@[0])
    } else {
        seq![]
    }
}

/// The block that shows a failed test under `number`. It is empty where nothing
/// was run.
pub open spec fn failure_block(failed: Located, number: nat) -> Seq<char> {
    match shown_execution(failed.spec) {
        Some(execution) => if execution.results@.len() == 0 {
            seq![]
        } else {
            let results = execution.results@;
            block_heading(failed, number) + first_error_text(results[0]) + artifacts_text(results)
                + output_text(printed(results)) + retry_text(results.len())
        },
        None => seq![],
    }
}

/// The blocks of the failed tests, numbered from the one after `before`.
pub open spec fn failure_blocks(failed: Seq<Located>, before: nat) -> Seq<char>
    decreases failed.len(),
{
    if failed.len() == 0 {
        seq![]
    } else {
        failure_blocks(failed.drop_last(), before) + failure_block(
            failed.last(),
            before + failed.len(),
        )
    }
}

/// The line of totals.
pub open spec fn summary_line(stats: PlaywrightStats) -> Seq<char> {
    "PASS ("@ + text::decimal(stats.expected as nat) + ") FAIL ("@ + text::decimal(
        stats.unexpected as nat,
    ) + ")"@ + (if stats.skipped > 0 {
        " skipped ("@ + text::decimal(stats.skipped as nat) + ")"@
    } else {
        seq![]
    }) + "\n"@
}

/// The whole report.
pub open spec fn rich_report(stats: PlaywrightStats, failed: Seq<Located>) -> Seq<char> {
    summary_line(stats) + failure_blocks(failed, 0) + "\nTime: "@ + text::decimal(
        stats.duration as nat,
    ) + "ms\n"@
}

/// The report of the run that `json` describes.
pub fn format_rich_output(json: &PlaywrightJsonOutput) -> (r: String)
    requires
        failing(all_specs(json.suites@)).len() <= usize::MAX,
    ensures
        r@ == rich_report(json.stats, failing(all_specs(json.suites@))),
{
    let stats = &json.stats;
    let mut out = String::new();
    out.append("PASS (");
    chars::push_decimal(&mut out, stats.expected as u64);
    out.append(") FAIL (");
    chars::push_decimal(&mut out, stats.unexpected as u64);
    out.append(")");
    if stats.skipped > 0 {
        out.append(" skipped (");
        chars::push_decimal(&mut out, stats.skipped as u64);
        out.append(")");
    }
    out.append("\n");
    assert(out@ == summary_line(*stats));
    let mut idx: usize = 0;
    walk_failures(json.suites.as_slice(), &mut idx, &mut out);
    out.append("\nTime: ");
    chars::push_decimal(&mut out, stats.duration);
    out.append("ms\n");
    out
}

/// Puts the blocks of the failed tests of `suites` behind `out`, numbered from
/// the one after `idx`, which counts them.
pub fn walk_failures(suites: &[PlaywrightSuite], idx: &mut usize, out: &mut String)
    requires
        *old(idx) + failing(all_specs(suites@)).len() <= usize::MAX,
    ensures
        *final(idx) == *old(idx) + failing(all_specs(suites@)).len(),
        final(out)@ == old(out)@ + failure_blocks(
            failing(all_specs(suites@)),
            *old(idx) as nat,
        ),
    decreases suites@,
{
    let ghost first = *idx as nat;
    let ghost start = out@;
    let mut i: usize = 0;
    proof {
        assert(suites@.take(0) == Seq::<PlaywrightSuite>::empty());
        lemma_failing_empty();
    }
    while i < suites.len()
        invariant
            i <= suites.len(),
            first + failing(all_specs(suites@)).len() <= usize::MAX,
            *idx == first + failing(all_specs(suites@.take(i as int))).len(),
            out@ == start + failure_blocks(failing(all_specs(suites@.take(i as int))), first),
        decreases suites.len() - i,
    {
        let suite = &suites[i];
        proof {
            lemma_walk_step(suites@, i as int, first, start);
        }
        walk_specs(suite, idx, out);
        walk_failures(suite.suites.as_slice(), idx, out);
        i += 1;
    }
    assert(suites@.take(i as int) == suites@);
}

/// Puts the blocks of the failed tests of a suite itself behind `out`, numbered
/// from the one after `idx`, which counts them.
fn walk_specs(suite: &PlaywrightSuite, idx: &mut usize, out: &mut String)
    requires
        *old(idx) + failing(own_specs(*suite)).len() <= usize::MAX,
    ensures
        *final(idx) == *old(idx) + failing(own_specs(*suite)).len(),
        final(out)@ == old(out)@ + failure_blocks(failing(own_specs(*suite)), *old(idx) as nat),
{
    let ghost first = *idx as nat;
    let ghost start = out@;
    let ghost own = own_specs(*suite);
    let file = file_of(suite);
    let mut j: usize = 0;
    proof {
        assert(own.take(0) == Seq::<Located>::empty());
        lemma_failing_empty();
    }
    while j < suite.specs.len()
        invariant
            j <= suite.specs.len(),
            own == own_specs(*suite),
            file@ == suite_file(*suite),
            first + failing(own).len() <= usize::MAX,
            *idx == first + failing(own.take(j as int)).len(),
            out@ == start + failure_blocks(failing(own.take(j as int)), first),
        decreases suite.specs.len() - j,
    {
        let spec = &suite.specs[j];
        let ghost seen = own.take(j as int);
        proof {
            let rest = own.skip(j + 1);
            assert(own.take(j + 1) == seen.push(own[j as int]));
            assert(own == seen.push(own[j as int]) + rest);
            lemma_failing_push(seen, own[j as int]);
            lemma_failing_add(seen.push(own[j as int]), rest);
        }
        if !spec.ok {
            *idx += 1;
            emit_failure_block(spec, file, *idx, out);
            proof {
                assert(failing(seen).push(own[j as int]).drop_last() == failing(seen));
                assert(own[j as int] == Located { file: file@, spec: *spec });
                text::lemma_add_assoc(
                    start,
                    failure_blocks(failing(seen), first),
                    failure_block(own[j as int], *idx as nat),
                );
            }
        }
        j += 1;
    }
    assert(own.take(j as int) == own);
}

/// The failed tests of one suite more: those of the suite itself, then those of
/// the suites in it. Their blocks stand behind `start` and the blocks so far.
proof fn lemma_walk_step(suites: Seq<PlaywrightSuite>, i: int, first: nat, start: Seq<char>)
    requires
        0 <= i < suites.len(),
    ensures
        ({
            let done = failing(all_specs(suites.take(i)));
            let own = failing(own_specs(suites[i]));
            let nested = failing(all_specs(suites[i].suites@));
            let next = failing(all_specs(suites.take(i + 1)));
            &&& next.len() == done.len() + own.len() + nested.len()
            &&& next.len() <= failing(all_specs(suites)).len()
            &&& start + failure_blocks(next, first) == start + failure_blocks(done, first)
                + failure_blocks(own, first + done.len()) + failure_blocks(
                nested,
                first + done.len() + own.len(),
            )
        }),
{
    let done = all_specs(suites.take(i));
    let own = own_specs(suites[i]);
    let nested = all_specs(suites[i].suites@);
    lemma_all_specs_step(suites, i);
    lemma_failing_prefix(suites, i + 1);
    lemma_failing_add(done, own);
    lemma_failing_add(done + own, nested);
    lemma_failure_blocks_add(failing(done), failing(own), first);
    lemma_failure_blocks_add(failing(done) + failing(own), failing(nested), first);
    let a = failure_blocks(failing(done), first);
    let b = failure_blocks(failing(own), first + failing(done).len());
    let c = failure_blocks(failing(nested), first + failing(done).len() + failing(own).len());
    text::lemma_add_assoc(start, a, b);
    text::lemma_add_assoc(start, a + b, c);
}

/// Puts the block of a failed test behind `out`.
pub fn emit_failure_block(spec: &PlaywrightSpec, file: &str, idx: usize, out: &mut String)
    ensures
        final(out)@ == old(out)@ + failure_block(
            Located { file: file@, spec: *spec },
            idx as nat,
        ),
{
    let execution = match find_unexpected(spec.tests.as_slice()) {
        Some(test) => test,
        None => {
            if spec.tests.len() == 0 {
                return;
            }
            &spec.tests[0]
        },
    };
    if execution.results.len() == 0 {
        return;
    }
    let results = execution.results.as_slice();
    let ghost failed = Located { file: file@, spec: *spec };
    let ghost start = out@;
    push_heading(spec, file, idx, out);
    push_first_error(&results[0], out);
    push_artifacts(results, out);
    push_output(results, out);
    push_retries(results.len(), out);
    proof {
        lemma_five_parts(
            start,
            block_heading(failed, idx as nat),
            first_error_text(results@[0]),
            artifacts_text(results@),
            output_text(printed(results@)),
            retry_text(results@.len()),
        );
    }
}

/// Parts put behind `s` one by one are put behind it together.
proof fn lemma_five_parts(
    s: Seq<char>,
    a: Seq<char>,
    b: Seq<char>,
    c: Seq<char>,
    d: Seq<char>,
    e: Seq<char>,
)
    ensures
        s + a + b + c + d + e == s + (a + b + c + d + e),
{
    text::lemma_add_assoc(s, a, b);
    text::lemma_add_assoc(s, a + b, c);
    text::lemma_add_assoc(s, a + b + c, d);
    text::lemma_add_assoc(s, a + b + c + d, e);
}

/// Puts the first error of an attempt behind `out`. The first attempt carries the
/// fullest error; a retry often shortens it.
fn push_first_error(attempt: &PlaywrightAttempt, out: &mut String)
    ensures
        final(out)@ == old(out)@ + first_error_text(*attempt),
{
    if attempt.errors.len() > 0 {
        push_error(&attempt.errors[0], out);
    }
}

/// Puts the line that a block starts with behind `out`.
fn push_heading(spec: &PlaywrightSpec, file: &str, idx: usize, out: &mut String)
    ensures
        final(out)@ == old(out)@ + block_heading(
            Located { file: file@, spec: *spec },
            idx as nat,
        ),
{
    out.append("\n");
    chars::push_decimal(out, idx as u64);
    out.append(". ");
    out.append(spec.title.as_str());
    out.append(" (");
    out.append(file);
    out.append(")\n");
    assert(out@ == old(out)@ + block_heading(Located { file: file@, spec: *spec }, idx as nat));
}

/// Puts the note on how often a test was tried again behind `out`.
fn push_retries(attempts: usize, out: &mut String)
    ensures
        final(out)@ == old(out)@ + retry_text(attempts as nat),
{
    if attempts > 1 {
        out.append("   retries: ");
        chars::push_decimal(out, (attempts - 1) as u64);
        out.append(" (artifact paths deduped by name+path)\n");
    }
    assert(out@ == old(out)@ + retry_text(attempts as nat));
}

/// Puts the message, the stack and the snippet of an error behind `out`.
fn push_error(error: &PlaywrightError, out: &mut String)
    ensures
        final(out)@ == old(out)@ + error_text(*error),
{
    chars::push_indented(out, chars::to_chars(error.message.as_str()).as_slice());
    if let Some(stack) = &error.stack {
        let shown = trim_stack(stack.as_str());
        chars::push_indented(out, chars::to_chars(shown.as_str()).as_slice());
    }
    if let Some(snippet) = &error.snippet {
        let shown = trim_snippet(snippet.as_str());
        if !shown.as_str().is_empty() {
            out.append("   ── snippet ──\n");
            chars::push_indented(out, chars::to_chars(shown.as_str()).as_slice());
        }
    }
    assert(out@ == old(out)@ + error_text(*error));
}

/// What the artifacts of `artifacts` are called and where they are.
pub open spec fn artifact_views(artifacts: Seq<(String, String)>) -> Seq<(Seq<char>, Seq<char>)> {
    artifacts.map_values(|a: (String, String)| (a.0@, a.1@))
}

/// Whether `artifacts` holds the artifact with this name and this path.
fn holds_artifact(artifacts: &[(String, String)], name: &str, path: &str) -> (r: bool)
    ensures
        r == artifact_views(artifacts@).contains((name@, path@)),
{
    let mut i: usize = 0;
    while i < artifacts.len()
        invariant
            i <= artifacts.len(),
            forall|k: int| 0 <= k < i ==> artifact_views(artifacts@)[k] != (name@, path@),
        decreases artifacts.len() - i,
    {
        if chars::same(artifacts[i].0.as_str(), name) && chars::same(artifacts[i].1.as_str(), path) {
            assert(artifact_views(artifacts@)[i as int] == (name@, path@));
            return true;
        }
        i += 1;
    }
    false
}

/// The artifacts of all attempts, each once. A retry often names those of the
/// first attempt again.
fn collect_artifacts(results: &[PlaywrightAttempt]) -> (r: Vec<(String, String)>)
    ensures
        artifact_views(r@) == distinct(attached(results@)),
{
    let mut artifacts: Vec<(String, String)> = Vec::new();
    let mut i: usize = 0;
    assert(artifact_views(artifacts@) == distinct(attached(results@.take(0))));
    while i < results.len()
        invariant
            i <= results.len(),
            artifact_views(artifacts@) == distinct(attached(results@.take(i as int))),
        decreases results.len() - i,
    {
        let attachments = results[i].attachments.as_slice();
        let ghost done = attached(results@.take(i as int));
        let mut j: usize = 0;
        assert(done + named_paths(attachments@.take(0)) == done);
        while j < attachments.len()
            invariant
                j <= attachments.len(),
                artifact_views(artifacts@) == distinct(
                    done + named_paths(attachments@.take(j as int)),
                ),
            decreases attachments.len() - j,
        {
            let attachment = &attachments[j];
            let ghost named = named_paths(attachments@.take(j as int));
            assert(attachments@.take(j + 1).drop_last() == attachments@.take(j as int));
            if let Some(path) = &attachment.path {
                let ghost pair = (attachment.name@, path@);
                let ghost kept = artifacts@;
                assert(done + named.push(pair) == (done + named).push(pair));
                assert((done + named).push(pair).drop_last() == done + named);
                if !holds_artifact(
                    artifacts.as_slice(),
                    attachment.name.as_str(),
                    path.as_str(),
                ) {
                    artifacts.push((attachment.name.clone(), path.clone()));
                    assert(artifact_views(artifacts@) == artifact_views(kept).push(pair));
                }
            }
            j += 1;
        }
        assert(attachments@.take(j as int) == attachments@);
        i += 1;
        assert(results@.take(i as int).drop_last() == results@.take(i - 1));
    }
    assert(results@.take(i as int) == results@);
    artifacts
}

/// Puts the artifacts of all attempts behind `out`.
fn push_artifacts(results: &[PlaywrightAttempt], out: &mut String)
    ensures
        final(out)@ == old(out)@ + artifacts_text(results@),
{
    let artifacts = collect_artifacts(results);
    if artifacts.len() == 0 {
        assert(artifact_views(artifacts@).len() == 0);
        return;
    }
    out.append("   ── artifacts ──\n");
    let ghost shown = artifact_views(artifacts@).map_values(
        |a: (Seq<char>, Seq<char>)| artifact_line(a),
    );
    let ghost heading = out@;
    let mut i: usize = 0;
    assert(heading + text::concat(shown.take(0)) == heading);
    while i < artifacts.len()
        invariant
            i <= artifacts.len(),
            shown == artifact_views(artifacts@).map_values(
                |a: (Seq<char>, Seq<char>)| artifact_line(a),
            ),
            out@ == heading + text::concat(shown.take(i as int)),
        decreases artifacts.len() - i,
    {
        let ghost before = out@;
        let name = artifacts[i].0.as_str();
        let mut label = if name.is_empty() {
            "file".to_owned()
        } else {
            name.to_owned()
        };
        label.append(":");
        out.append("   ");
        out.append(chars::pad_to(label.as_str(), 12).as_str());
        out.append(" ");
        out.append(artifacts[i].1.as_str());
        out.append("\n");
        proof {
            let a = artifact_views(artifacts@)[i as int];
            assert(a == (artifacts@[i as int].0@, artifacts@[i as int].1@));
            assert(out@ == before + artifact_line(a));
            assert(shown.take(i + 1).drop_last() == shown.take(i as int));
            assert(shown.take(i + 1).last() == artifact_line(a));
        }
        i += 1;
    }
    assert(shown.take(i as int) == shown);
    assert(out@ == old(out)@ + artifacts_text(results@));
}

/// Puts what the pieces of a stream spell behind `out`.
fn push_stream(chunks: &[PlaywrightStream], out: &mut String)
    ensures
        final(out)@ == old(out)@ + stream_text(chunks@),
{
    let mut i: usize = 0;
    while i < chunks.len()
        invariant
            i <= chunks.len(),
            out@ == old(out)@ + stream_text(chunks@.take(i as int)),
        decreases chunks.len() - i,
    {
        assert(chunks@.take(i + 1).drop_last() == chunks@.take(i as int));
        if let Some(t) = &chunks[i].text {
            out.append(t.as_str());
        }
        i += 1;
    }
    assert(chunks@.take(i as int) == chunks@);
}

/// Puts the end of what the attempts printed behind `out`.
fn push_output(results: &[PlaywrightAttempt], out: &mut String)
    ensures
        final(out)@ == old(out)@ + output_text(printed(results@)),
{
    let mut combined = String::new();
    let mut i: usize = 0;
    while i < results.len()
        invariant
            i <= results.len(),
            combined@ == printed(results@.take(i as int)),
        decreases results.len() - i,
    {
        assert(results@.take(i + 1).drop_last() == results@.take(i as int));
        push_stream(results[i].stdout.as_slice(), &mut combined);
        push_stream(results[i].stderr.as_slice(), &mut combined);
        i += 1;
    }
    assert(results@.take(i as int) == results@);
    let whole = chars::to_chars(combined.as_str());
    if chars::trim(whole.as_slice()).len() > 0 {
        let clean = chars::strip_ansi(whole.as_slice());
        let start: usize = if clean.len() > STDOUT_TAIL_CAP {
            clean.len() - STDOUT_TAIL_CAP
        } else {
            0
        };
        let tail = slice_subrange(clean.as_slice(), start, clean.len());
        assert(tail@ == last_chars(clean@, STDOUT_TAIL_CAP as nat));
        let shown = chars::trim(tail);
        if shown.len() > 0 {
            out.append("   ── stdout (tail) ──\n");
            chars::push_indented(out, shown);
        }
    }
    assert(out@ == old(out)@ + output_text(printed(results@)));
}

proof fn lemma_failing_empty()
    ensures
        failing(seq![]) == Seq::<Located>::empty(),
{
    reveal_with_fuel(Seq::filter, 1);
}

/// No more specs fail than there are.
pub proof fn lemma_failing_len(specs: Seq<Located>)
    ensures
        failing(specs).len() <= specs.len(),
    decreases specs.len(),
{
    if specs.len() == 0 {
        lemma_failing_empty();
    } else {
        lemma_failing_len(specs.drop_last());
        lemma_failing_push(specs.drop_last(), specs.last());
        assert(specs.drop_last().push(specs.last()) == specs);
    }
}

/// The first suites hold no more failed specs than all of them.
proof fn lemma_failing_prefix(suites: Seq<PlaywrightSuite>, n: int)
    requires
        0 <= n <= suites.len(),
    ensures
        failing(all_specs(suites.take(n))).len() <= failing(all_specs(suites)).len(),
    decreases suites.len() - n,
{
    if n == suites.len() {
        assert(suites.take(n) == suites);
    } else {
        lemma_all_specs_step(suites, n);
        let done = all_specs(suites.take(n));
        let own = own_specs(suites[n]);
        lemma_failing_add(done, own);
        lemma_failing_add(done + own, all_specs(suites[n].suites@));
        lemma_failing_prefix(suites, n + 1);
    }
}

/// The blocks of `b` stand behind those of `a` and are numbered after them.
pub proof fn lemma_failure_blocks_add(a: Seq<Located>, b: Seq<Located>, before: nat)
    ensures
        failure_blocks(a + b, before) == failure_blocks(a, before) + failure_blocks(
            b,
            before + a.len(),
        ),
    decreases b.len(),
{
    if b.len() == 0 {
        assert(a + b == a);
    } else {
        lemma_failure_blocks_add(a, b.drop_last(), before);
        assert((a + b).drop_last() == a + b.drop_last());
        text::lemma_add_assoc(
            failure_blocks(a, before),
            failure_blocks(b.drop_last(), before + a.len()),
            failure_block(b.last(), before + a.len() + b.len()),
        );
    }
}

} // verus!
