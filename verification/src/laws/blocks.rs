//! The report on a document, said of what its failed tests hold.

use vstd::prelude::*;
use crate::document::{
    Located, PlaywrightAttachment, PlaywrightAttempt, PlaywrightError, PlaywrightSpec,
    PlaywrightStats, PlaywrightStream,
};
use crate::excerpt::{trimmed_snippet, trimmed_stack};
use crate::laws::law_plain_text_is_kept;
use crate::laws::primitives::law_indented;
use crate::laws::tree::{is_first_unexpected, law_first_unexpected, none_unexpected};
use crate::rich::{
    artifact_line, artifacts_text, attached, distinct, error_text, failure_block, failure_blocks,
    lemma_failure_blocks_add, named_paths, output_text, printed, retry_text, rich_report,
    shown_execution, stream_text,
};
use crate::text;

verus! {

/// What a stream spells is its pieces one behind the other, the earlier ones in
/// front.
pub proof fn law_stream(a: Seq<PlaywrightStream>, b: Seq<PlaywrightStream>, piece: PlaywrightStream)
    ensures
        stream_text(seq![]) == Seq::<char>::empty(),
        stream_text(a + b) == stream_text(a) + stream_text(b),
        stream_text(seq![piece]) == (match piece.text {
            Some(t) => t@,
            None => seq![],
        }),
    decreases b.len(),
{
    reveal_with_fuel(stream_text, 2);
    assert(seq![piece].drop_last() == Seq::<PlaywrightStream>::empty());
    assert(seq![piece].last() == piece);
    if b.len() == 0 {
        assert(a + b == a);
        assert(stream_text(a) + stream_text(b) == stream_text(a));
    } else {
        let short = b.drop_last();
        law_stream(a, short, piece);
        assert((a + b).drop_last() == a + short);
        assert((a + b).last() == b.last());
        let last = match b.last().text {
            Some(t) => t@,
            None => seq![],
        };
        text::lemma_add_assoc(stream_text(a), stream_text(short), last);
    }
}

/// What attempts printed stands in their order: of each attempt its stdout, then its
/// stderr.
pub proof fn law_printed(
    a: Seq<PlaywrightAttempt>,
    b: Seq<PlaywrightAttempt>,
    attempt: PlaywrightAttempt,
)
    ensures
        printed(seq![]) == Seq::<char>::empty(),
        printed(a + b) == printed(a) + printed(b),
        printed(seq![attempt]) == stream_text(attempt.stdout@) + stream_text(attempt.stderr@),
    decreases b.len(),
{
    reveal_with_fuel(printed, 2);
    assert(seq![attempt].drop_last() == Seq::<PlaywrightAttempt>::empty());
    assert(seq![attempt].last() == attempt);
    if b.len() == 0 {
        assert(a + b == a);
        assert(printed(a) + printed(b) == printed(a));
    } else {
        let short = b.drop_last();
        law_printed(a, short, attempt);
        assert((a + b).drop_last() == a + short);
        assert((a + b).last() == b.last());
        let out = stream_text(b.last().stdout@);
        let err = stream_text(b.last().stderr@);
        text::lemma_add_assoc(printed(a), printed(short), out);
        text::lemma_add_assoc(printed(a), printed(short) + out, err);
    }
}

/// What is shown of the output is its last five hundred characters, after stripping
/// colours, or all of it where there are no more, without the white space around
/// them. Where that leaves nothing, there is no heading either.
pub proof fn law_output(output: Seq<char>, front: Seq<char>, tail: Seq<char>)
    requires
        text::strip_ansi(output) == front + tail,
        tail.len() == 500 || (front.len() == 0 && tail.len() < 500),
    ensures
        text::trim(tail).len() == 0 ==> output_text(output) == Seq::<char>::empty(),
        text::trim(tail).len() > 0 ==> output_text(output) == "   ── stdout (tail) ──\n"@
            + text::indented(text::trim(tail)),
{
    let clean = text::strip_ansi(output);
    assert(crate::rich::last_chars(clean, 500) == tail);
    if text::trim(output).len() == 0 {
        text::lemma_trimmed_to_nothing(output);
        assert(!output.contains('\u{1b}')) by {
            if output.contains('\u{1b}') {
                let i = choose|i: int| 0 <= i < output.len() && output[i] == '\u{1b}';
                assert(text::is_space(output[i]));
            }
        }
        law_plain_text_is_kept(output);
        assert forall|i: int| 0 <= i < tail.len() implies text::is_space(#[trigger] tail[i]) by {
            assert(tail[i] == output[front.len() + i]);
        }
        text::lemma_space_is_trimmed(tail);
    }
}

/// Short output without colours and without white space around it is shown whole,
/// line by line.
pub proof fn law_short_output_is_shown_whole(output: Seq<char>)
    requires
        !text::has_control(output),
        0 < output.len() <= 500,
        text::trim(output) == output,
    ensures
        output_text(output) == "   ── stdout (tail) ──\n"@ + text::indented(output),
{
    text::lemma_strip_ansi_fixed(output);
    assert(output == Seq::<char>::empty() + output);
    law_output(output, seq![], output);
}

/// A line that earlier pieces printed stands in front of what later pieces printed.
pub proof fn law_earlier_output_stands_in_front(
    attempt: PlaywrightAttempt,
    a: Seq<PlaywrightStream>,
    b: Seq<PlaywrightStream>,
    line: Seq<char>,
)
    requires
        attempt.stdout@ == a + b,
        attempt.stderr@.len() == 0,
        stream_text(a) == line + seq!['\n'],
        !line.contains('\n'),
        line.len() == 0 || line.last() != '\r',
        !text::has_control(stream_text(a) + stream_text(b)),
        (stream_text(a) + stream_text(b)).len() <= 500,
        text::trim(stream_text(a) + stream_text(b)) == stream_text(a) + stream_text(b),
    ensures
        output_text(printed(seq![attempt])) == "   ── stdout (tail) ──\n"@ + (seq![' ', ' ', ' ']
            + line + seq!['\n'] + text::indented(stream_text(b))),
{
    let piece = PlaywrightStream { text: None };
    law_stream(a, b, piece);
    law_printed(seq![], seq![], attempt);
    let output = stream_text(a) + stream_text(b);
    assert(attempt.stderr@ == Seq::<PlaywrightStream>::empty());
    assert(printed(seq![attempt]) == output);
    law_short_output_is_shown_whole(output);
    law_indented(line, stream_text(b));
}

/// Each attachment with a path counts under its name and its path, in order; one
/// without a path does not count.
pub proof fn law_named_paths(
    a: Seq<PlaywrightAttachment>,
    b: Seq<PlaywrightAttachment>,
    attachment: PlaywrightAttachment,
)
    ensures
        named_paths(seq![]) == Seq::<(Seq<char>, Seq<char>)>::empty(),
        named_paths(a + b) == named_paths(a) + named_paths(b),
        named_paths(seq![attachment]) == (match attachment.path {
            Some(path) => seq![(attachment.name@, path@)],
            None => seq![],
        }),
    decreases b.len(),
{
    reveal_with_fuel(named_paths, 2);
    assert(seq![attachment].drop_last() == Seq::<PlaywrightAttachment>::empty());
    assert(seq![attachment].last() == attachment);
    if b.len() == 0 {
        assert(a + b == a);
        assert(named_paths(a) + named_paths(b) == named_paths(a));
    } else {
        law_named_paths(a, b.drop_last(), attachment);
        assert((a + b).drop_last() == a + b.drop_last());
        assert((a + b).last() == b.last());
        assert(named_paths(a + b) == named_paths(a) + named_paths(b));
    }
}

/// The attachments of all attempts count, in order.
pub proof fn law_attached(
    a: Seq<PlaywrightAttempt>,
    b: Seq<PlaywrightAttempt>,
    attempt: PlaywrightAttempt,
)
    ensures
        attached(seq![]) == Seq::<(Seq<char>, Seq<char>)>::empty(),
        attached(a + b) == attached(a) + attached(b),
        attached(seq![attempt]) == named_paths(attempt.attachments@),
    decreases b.len(),
{
    reveal_with_fuel(attached, 2);
    assert(seq![attempt].drop_last() == Seq::<PlaywrightAttempt>::empty());
    assert(seq![attempt].last() == attempt);
    if b.len() == 0 {
        assert(a + b == a);
        assert(attached(a) + attached(b) == attached(a));
    } else {
        let short = b.drop_last();
        law_attached(a, short, attempt);
        assert((a + b).drop_last() == a + short);
        assert((a + b).last() == b.last());
        assert(attached(a + b) == attached(a) + attached(b));
    }
}

/// Each item is listed once, at the place where it first stands: more items change
/// nothing in front.
pub proof fn law_first_places_are_kept<T>(a: Seq<T>, b: Seq<T>)
    ensures
        distinct(a).no_duplicates(),
        forall|x: T| distinct(a).contains(x) <==> a.contains(x),
        distinct(a).len() <= distinct(a + b).len(),
        distinct(a + b).take(distinct(a).len() as int) == distinct(a),
    decreases b.len(),
{
    crate::laws::lemma_distinct(a);
    assert forall|x: T| distinct(a).contains(x) <==> a.contains(x) by {
        crate::laws::lemma_distinct_contains(a, x);
    }
    if b.len() == 0 {
        assert(a + b == a);
        assert(distinct(a).take(distinct(a).len() as int) == distinct(a));
    } else {
        let short = b.drop_last();
        law_first_places_are_kept(a, short);
        assert((a + b).drop_last() == a + short);
        let n = distinct(a).len() as int;
        assert(distinct(a + b).take(n) == distinct(a + short).take(n));
    }
}

/// `n` spaces.
pub open spec fn spaces(n: nat) -> Seq<char> {
    Seq::new(n, |i: int| ' ')
}

/// The line of an artifact is its name and its path. The paths stand below each
/// other where the names are short enough.
pub proof fn law_artifact_line(name: Seq<char>, path: Seq<char>)
    ensures
        0 < name.len() <= 11 ==> artifact_line((name, path)) == "   "@ + name + ":"@ + spaces(
            (12 - name.len()) as nat,
        ) + path + "\n"@,
        name.len() > 11 ==> artifact_line((name, path)) == "   "@ + name + ": "@ + path + "\n"@,
        name.len() == 0 ==> artifact_line((name, path)) == artifact_line(("file"@, path)),
{
    reveal_strlit("   ");
    reveal_strlit(":");
    reveal_strlit(": ");
    reveal_strlit(" ");
    reveal_strlit("\n");
    reveal_strlit("file");
    let padded = text::pad_to(name + ":"@, 12);
    if 0 < name.len() <= 11 {
        assert(padded + " "@ == name + ":"@ + spaces((12 - name.len()) as nat));
        assert("   "@ + padded + " "@ + path + "\n"@ == "   "@ + (padded + " "@) + path + "\n"@);
        assert("   "@ + (name + ":"@ + spaces((12 - name.len()) as nat)) == "   "@ + name + ":"@
            + spaces((12 - name.len()) as nat));
    } else if name.len() > 11 {
        assert("   "@ + padded + " "@ == "   "@ + name + ": "@);
    }
}

/// The artifacts are listed under a heading; without any there is no heading.
pub proof fn law_artifacts_text(results: Seq<PlaywrightAttempt>)
    ensures
        attached(results).len() == 0 ==> artifacts_text(results) == Seq::<char>::empty(),
        attached(results).len() > 0 ==> artifacts_text(results) == "   ── artifacts ──\n"@
            + text::concat(
            distinct(attached(results)).map_values(
                |a: (Seq<char>, Seq<char>)| artifact_line(a),
            ),
        ),
{
    let all = attached(results);
    if all.len() > 0 {
        law_first_places_are_kept(all, seq![]);
        assert(all.contains(all[0]));
        assert(distinct(all).contains(all[0]));
    }
}

/// The message of an error comes first, then the frames of its stack, then its
/// snippet under a heading, each where there is something to show.
pub proof fn law_error_text(error: PlaywrightError)
    ensures
        error.stack is None && error.snippet is None ==> error_text(error) == text::indented(
            error.message@,
        ),
        error.stack matches Some(stack) ==> error.snippet is None ==> error_text(error)
            == text::indented(error.message@) + text::indented(trimmed_stack(stack@)),
        error.stack matches Some(stack) ==> (error.snippet matches Some(snippet)
            ==> trimmed_snippet(snippet@).len() > 0 ==> error_text(error) == text::indented(
            error.message@,
        ) + text::indented(trimmed_stack(stack@)) + "   ── snippet ──\n"@ + text::indented(
            trimmed_snippet(snippet@),
        )),
        error.stack matches Some(stack) ==> (error.snippet matches Some(snippet)
            ==> trimmed_snippet(snippet@).len() == 0 ==> error_text(error) == text::indented(
            error.message@,
        ) + text::indented(trimmed_stack(stack@))),
        error.stack is None ==> (error.snippet matches Some(snippet) ==> trimmed_snippet(
            snippet@,
        ).len() > 0 ==> error_text(error) == text::indented(error.message@)
            + "   ── snippet ──\n"@ + text::indented(trimmed_snippet(snippet@))),
        error.stack is None ==> (error.snippet matches Some(snippet) ==> trimmed_snippet(
            snippet@,
        ).len() == 0 ==> error_text(error) == text::indented(error.message@)),
{
    let message = text::indented(error.message@);
    let nothing = Seq::<char>::empty();
    assert(message + nothing == message);
    if let Some(stack) = error.stack {
        let frames = text::indented(trimmed_stack(stack@));
        assert(message + frames + nothing == message + frames);
        if let Some(snippet) = error.snippet {
            text::lemma_add_assoc(
                message + frames,
                "   ── snippet ──\n"@,
                text::indented(trimmed_snippet(snippet@)),
            );
        }
    } else if let Some(snippet) = error.snippet {
        text::lemma_add_assoc(
            message,
            "   ── snippet ──\n"@,
            text::indented(trimmed_snippet(snippet@)),
        );
    }
}

/// The block is about the execution at `i`: the first unexpected one, or the first
/// of all where none is unexpected.
pub open spec fn is_shown(spec: PlaywrightSpec, i: int) -> bool {
    is_first_unexpected(spec.tests@, i) || (none_unexpected(spec.tests@) && i == 0
        && spec.tests@.len() > 0)
}

proof fn lemma_shown_execution(spec: PlaywrightSpec, i: int)
    ensures
        is_shown(spec, i) ==> shown_execution(spec) == Some(spec.tests@[i]),
        spec.tests@.len() == 0 ==> shown_execution(spec) is None,
{
    law_first_unexpected(spec.tests@, i);
}

/// Where nothing was run there is no block.
pub proof fn law_no_block_without_a_run(failed: Located, number: nat, i: int)
    requires
        failed.spec.tests@.len() == 0 || (is_shown(failed.spec, i)
            && failed.spec.tests@[i].results@.len() == 0),
    ensures
        failure_block(failed, number) == Seq::<char>::empty(),
{
    lemma_shown_execution(failed.spec, i);
}

/// A block starts with an empty line and a line with the number, the title and the
/// file. Then come the first error of the first attempt, the artifacts and the output
/// of all attempts, and the number of retries.
pub proof fn law_block(failed: Located, number: nat, i: int)
    requires
        is_shown(failed.spec, i),
        failed.spec.tests@[i].results@.len() > 0,
    ensures
        ({
            let results = failed.spec.tests@[i].results@;
            let heading = "\n"@ + text::decimal(number) + ". "@ + failed.spec.title@ + " ("@
                + failed.file + ")\n"@;
            let error = if results[0].errors@.len() == 0 {
                seq![]
            } else {
                error_text(results[0].errors@[0])
            };
            failure_block(failed, number) == heading + error + artifacts_text(results)
                + output_text(printed(results)) + retry_text(results.len())
        }),
{
    lemma_shown_execution(failed.spec, i);
}

/// Retries are the attempts behind the first; without any there is no note.
pub proof fn law_retries(retries: nat)
    ensures
        retry_text(0) == Seq::<char>::empty(),
        retries == 0 ==> retry_text(retries + 1) == Seq::<char>::empty(),
        retries > 0 ==> retry_text(retries + 1) == "   retries: "@ + text::decimal(retries)
            + " (artifact paths deduped by name+path)\n"@,
{
}

/// The blocks stand in the order of the tests, numbered one after the other.
pub proof fn law_blocks(a: Seq<Located>, b: Seq<Located>, one: Located, before: nat)
    ensures
        failure_blocks(seq![], before) == Seq::<char>::empty(),
        failure_blocks(seq![one], before) == failure_block(one, before + 1),
        failure_blocks(a + b, before) == failure_blocks(a, before) + failure_blocks(
            b,
            before + a.len(),
        ),
{
    reveal_with_fuel(failure_blocks, 2);
    assert(seq![one].drop_last() == Seq::<Located>::empty());
    assert(Seq::<char>::empty() + failure_block(one, before + 1) == failure_block(one, before + 1));
    lemma_failure_blocks_add(a, b, before);
}

/// The report is a line of totals, the blocks from number one on, an empty line and
/// the time. Skipped tests are mentioned only where there are some.
pub proof fn law_report(stats: PlaywrightStats, failed: Seq<Located>)
    ensures
        stats.skipped == 0 ==> rich_report(stats, failed) == "PASS ("@ + text::decimal(
            stats.expected as nat,
        ) + ") FAIL ("@ + text::decimal(stats.unexpected as nat) + ")\n"@ + failure_blocks(
            failed,
            0,
        ) + "\nTime: "@ + text::decimal(stats.duration as nat) + "ms\n"@,
        stats.skipped > 0 ==> rich_report(stats, failed) == "PASS ("@ + text::decimal(
            stats.expected as nat,
        ) + ") FAIL ("@ + text::decimal(stats.unexpected as nat) + ") skipped ("@ + text::decimal(
            stats.skipped as nat,
        ) + ")\n"@ + failure_blocks(failed, 0) + "\nTime: "@ + text::decimal(
            stats.duration as nat,
        ) + "ms\n"@,
{
    lemma_brackets();
    let counts = "PASS ("@ + text::decimal(stats.expected as nat) + ") FAIL ("@ + text::decimal(
        stats.unexpected as nat,
    );
    if stats.skipped == 0 {
        assert(counts + ")"@ + seq![] + "\n"@ == counts + ")\n"@);
    } else {
        let number = text::decimal(stats.skipped as nat);
        assert(counts + ")"@ + (" skipped ("@ + number + ")"@) + "\n"@ == counts
            + ") skipped ("@ + number + ")\n"@) by {
            assert(")"@ + " skipped ("@ == ") skipped ("@);
            assert(")"@ + "\n"@ == ")\n"@);
            assert(counts + ")"@ + (" skipped ("@ + number + ")"@) + "\n"@ == counts + (")"@
                + " skipped ("@) + number + (")"@ + "\n"@));
        }
    }
}

proof fn lemma_brackets()
    ensures
        ")"@ + "\n"@ == ")\n"@,
        ")"@ + " skipped ("@ == ") skipped ("@,
{
    reveal_strlit(")");
    reveal_strlit("\n");
    reveal_strlit(")\n");
    reveal_strlit(" skipped (");
    reveal_strlit(") skipped (");
}

} // verus!
