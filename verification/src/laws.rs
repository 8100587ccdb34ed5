//! What holds of the functions of this crate taken together.

pub mod blocks;
pub mod calls;
pub mod counting;
pub mod formatting;
pub mod frames;
pub mod installing;
pub mod primitives;
pub mod tiers;
pub mod tree;

use vstd::prelude::*;
use crate::command::{
    chooses_reporter, is_test, mode_of, playwright_args, OutputMode,
};
use crate::document::{
    failing, failures_of, lemma_failing_add, lemma_failing_push, Located, PlaywrightAttempt,
    PlaywrightStats,
};
use crate::excerpt::{
    has_user_frame, in_node_modules, is_frame, is_marked, is_user_frame, kept_frames, marked_line,
    shown_frames, snippet_window, trimmed_snippet, trimmed_stack, MAX_STACK_FRAMES,
};
use crate::install::{
    download_count, install_report, is_separator, kept_lines, kinds_report, matched_kind,
    omission_note, LineKind,
};
use crate::pattern::{
    regex_is_match, BYTES_PATTERN, DOWNLOAD_PATTERN, PROGRESS_BAR_PATTERN,
};
use crate::prettier::{
    check_report, checked_count, counts_agree, files_checked, files_to_format, files_written,
    is_issue_line, is_write_line, is_write_mode, issues_found, listed, names_file, numbered,
    prettier_report, source_path, success_text, unprefixed, MAX_PRETTIER_FILES,
};
use crate::rich::{
    artifact_line, artifacts_text, attached, distinct, failure_block, failure_blocks,
    lemma_failing_len, printed_tail, rich_report, summary_line, STDOUT_TAIL_CAP,
};
use crate::text;

verus! {

/// Stripping colours changes text if and only if a control sequence stands in it.
pub proof fn law_only_control_sequences_are_stripped(s: Seq<char>)
    ensures
        text::strip_ansi(s) == s <==> !text::has_control(s),
{
    text::lemma_strip_ansi_fixed(s);
}

/// Text without escape characters is not changed by stripping colours.
pub proof fn law_plain_text_is_kept(s: Seq<char>)
    requires
        !s.contains('\u{1b}'),
    ensures
        text::strip_ansi(s) == s,
{
    text::lemma_strip_ansi_fixed(s);
    if text::has_control(s) {
        let (i, n) = choose|i: int, n: int| text::control_at(s, i, n);
        assert(s.contains(s[i]));
    }
}

/// What is shown of a stack has no more lines than frames may be shown.
pub proof fn law_stack_is_capped(stack: Seq<char>)
    ensures
        shown_frames(stack).len() <= MAX_STACK_FRAMES,
        text::lines(trimmed_stack(stack)).len() <= MAX_STACK_FRAMES,
{
    let all = text::lines(stack);
    let shown = shown_frames(stack);
    text::lemma_lines_hold_no_line_feed(stack);
    assert forall|i: int| 0 <= i < shown.len() implies !(#[trigger] shown[i]).contains('\n') by {
        let k = lemma_kept_frame(all, i);
        assert(!all[k].contains('\n'));
    }
    text::lemma_joined_lines(shown);
}

/// The line of the stack that a kept frame is.
proof fn lemma_kept_frame(lines: Seq<Seq<char>>, i: int) -> (k: int)
    requires
        0 <= i < kept_frames(lines).len(),
    ensures
        0 <= k < lines.len(),
        lines[k] == kept_frames(lines)[i],
        is_frame(lines[k]),
    decreases lines.len(),
{
    let short = lines.drop_last();
    if i < kept_frames(short).len() {
        lemma_kept_frame(short, i)
    } else {
        lines.len() - 1
    }
}

/// No frame of a dependency is shown behind a frame of the user's own code.
pub proof fn law_stack_drops_dependencies(stack: Seq<char>, i: int, j: int)
    requires
        0 <= i < j < shown_frames(stack).len(),
        is_user_frame(shown_frames(stack)[i]),
    ensures
        !in_node_modules(shown_frames(stack)[j]),
{
    let all = text::lines(stack);
    lemma_user_frames_end_dependencies(all, i, j);
}

proof fn lemma_user_frames_end_dependencies(lines: Seq<Seq<char>>, i: int, j: int)
    requires
        0 <= i < j < kept_frames(lines).len(),
        is_user_frame(kept_frames(lines)[i]),
    ensures
        !in_node_modules(kept_frames(lines)[j]),
    decreases lines.len(),
{
    let short = lines.drop_last();
    if j < kept_frames(short).len() {
        lemma_user_frames_end_dependencies(short, i, j);
    } else {
        let k = lemma_kept_frame(short, i);
        assert(is_user_frame(short[k]));
        assert(has_user_frame(short));
    }
}

/// Where a stack has frames, some frame is shown.
pub proof fn law_stack_is_not_emptied(stack: Seq<char>, i: int)
    requires
        0 <= i < text::lines(stack).len(),
        is_frame(text::lines(stack)[i]),
    ensures
        shown_frames(stack).len() > 0,
        trimmed_stack(stack).len() > 0,
{
    let all = text::lines(stack);
    lemma_some_frame_is_kept(all, i);
    let shown = shown_frames(stack);
    let k = lemma_kept_frame(all, 0);
    lemma_frame_is_not_empty(all[k]);
    text::lemma_join_contains(shown, "\n"@, 0);
    let at = choose|at: int| text::occurs_at(trimmed_stack(stack), shown[0], at);
    assert(text::occurs_at(trimmed_stack(stack), shown[0], at));
}

proof fn lemma_frame_is_not_empty(line: Seq<char>)
    requires
        is_frame(line),
    ensures
        line.len() > 0,
{
    reveal_strlit("at ");
    if line.len() == 0 {
        assert(text::trim_start(line) == line);
    }
}

proof fn lemma_some_frame_is_kept(lines: Seq<Seq<char>>, i: int)
    requires
        0 <= i < lines.len(),
        is_frame(lines[i]),
    ensures
        kept_frames(lines).len() > 0,
    decreases lines.len(),
{
    let short = lines.drop_last();
    if i < short.len() {
        lemma_some_frame_is_kept(short, i);
    } else if !is_user_frame(lines.last()) && has_user_frame(short) {
        let k = choose|k: int| 0 <= k < short.len() && is_user_frame(#[trigger] short[k]);
        lemma_some_frame_is_kept(short, k);
    }
}

/// What is shown of a snippet has at most five lines.
pub proof fn law_snippet_is_capped(snippet: Seq<char>)
    ensures
        text::lines(trimmed_snippet(snippet)).len() <= 5,
{
    let all = text::lines(snippet);
    let shown = snippet_window(all);
    lemma_marked_line_range(all);
    text::lemma_lines_hold_no_line_feed(snippet);
    assert forall|i: int| 0 <= i < shown.len() implies !(#[trigger] shown[i]).contains('\n') by {
        let m = marked_line(all);
        let start = if m == all.len() || m < 2 {
            0
        } else {
            m - 2
        };
        assert(shown[i] == all[start + i]);
    }
    text::lemma_joined_lines(shown);
}

/// The first marked line of a snippet is shown.
pub proof fn law_marked_line_is_shown(snippet: Seq<char>, i: int)
    requires
        0 <= i < text::lines(snippet).len(),
        is_marked(text::lines(snippet)[i]),
        forall|k: int| 0 <= k < i ==> !is_marked(#[trigger] text::lines(snippet)[k]),
    ensures
        text::contains(trimmed_snippet(snippet), text::lines(snippet)[i]),
{
    let all = text::lines(snippet);
    lemma_marked_line(all, i);
    let start = if i < 2 {
        0
    } else {
        i - 2
    };
    assert(snippet_window(all)[i - start] == all[i]);
    text::lemma_join_contains(snippet_window(all), "\n"@, i - start);
}

proof fn lemma_marked_line_range(lines: Seq<Seq<char>>)
    ensures
        0 <= marked_line(lines) <= lines.len(),
    decreases lines.len(),
{
    if lines.len() > 0 && !is_marked(lines[0]) {
        lemma_marked_line_range(lines.skip(1));
    }
}

proof fn lemma_marked_line(lines: Seq<Seq<char>>, i: int)
    requires
        0 <= i < lines.len(),
        is_marked(lines[i]),
    ensures
        0 <= marked_line(lines) <= i,
        is_marked(lines[marked_line(lines)]),
    decreases lines.len(),
{
    if !is_marked(lines[0]) {
        let rest = lines.skip(1);
        assert(rest[i - 1] == lines[i]);
        lemma_marked_line(rest, i - 1);
        assert(rest[marked_line(rest)] == lines[marked_line(rest) + 1]);
    }
}

/// Of artifacts with the same name and path one is listed, and all are listed.
pub proof fn law_artifacts_are_listed_once(results: Seq<PlaywrightAttempt>)
    ensures
        distinct(attached(results)).no_duplicates(),
        forall|a: (Seq<char>, Seq<char>)|
            distinct(attached(results)).contains(a) <==> attached(results).contains(a),
{
    lemma_distinct(attached(results));
    assert forall|a: (Seq<char>, Seq<char>)| distinct(attached(results)).contains(a)
        <==> attached(results).contains(a) by {
        lemma_distinct_contains(attached(results), a);
    }
}

/// Every artifact of a failed test that has a path has its line.
pub proof fn law_artifacts_are_shown(results: Seq<PlaywrightAttempt>, i: int)
    requires
        0 <= i < attached(results).len(),
    ensures
        text::contains(artifacts_text(results), artifact_line(attached(results)[i])),
{
    let all = attached(results);
    let listed = distinct(all);
    lemma_distinct_contains(all, all[i]);
    assert(all.contains(all[i]));
    let k = choose|k: int| 0 <= k < listed.len() && listed[k] == all[i];
    let shown = listed.map_values(|a: (Seq<char>, Seq<char>)| artifact_line(a));
    text::lemma_concat_contains(shown, k);
    text::lemma_contains_add("   ── artifacts ──\n"@, text::concat(shown), shown[k]);
}

/// The block of every failed test stands in the report, under its number.
pub proof fn law_every_failure_is_reported(stats: PlaywrightStats, failed: Seq<Located>, i: int)
    requires
        0 <= i < failed.len(),
    ensures
        text::contains(rich_report(stats, failed), failure_block(failed[i], (i + 1) as nat)),
{
    let block = failure_block(failed[i], (i + 1) as nat);
    let blocks = failure_blocks(failed, 0);
    let head = summary_line(stats);
    let time = text::decimal(stats.duration as nat);
    lemma_block_is_shown(failed, i);
    text::lemma_contains_add(head, blocks, block);
    text::lemma_contains_add(head + blocks, "\nTime: "@, block);
    text::lemma_contains_add(head + blocks + "\nTime: "@, time, block);
    text::lemma_contains_add(head + blocks + "\nTime: "@ + time, "ms\n"@, block);
}

proof fn lemma_block_is_shown(failed: Seq<Located>, i: int)
    requires
        0 <= i < failed.len(),
    ensures
        text::contains(failure_blocks(failed, 0), failure_block(failed[i], (i + 1) as nat)),
    decreases failed.len(),
{
    let block = failure_block(failed[i], (i + 1) as nat);
    let short = failed.drop_last();
    if i < short.len() {
        lemma_block_is_shown(short, i);
    } else {
        text::lemma_contains_self(block);
    }
    text::lemma_contains_add(
        failure_blocks(short, 0),
        failure_block(failed.last(), failed.len()),
        block,
    );
}

proof fn lemma_distinct<T>(items: Seq<T>)
    ensures
        distinct(items).no_duplicates(),
    decreases items.len(),
{
    if items.len() > 0 {
        lemma_distinct(items.drop_last());
    }
}

proof fn lemma_distinct_contains<T>(items: Seq<T>, x: T)
    ensures
        distinct(items).contains(x) <==> items.contains(x),
    decreases items.len(),
{
    if items.len() > 0 {
        let short = items.drop_last();
        let rest = distinct(short);
        lemma_distinct_contains(short, x);
        lemma_contains_push(short, items.last(), x);
        lemma_contains_push(rest, items.last(), x);
        assert(short.push(items.last()) == items);
    }
}

proof fn lemma_contains_push<T>(items: Seq<T>, last: T, x: T)
    ensures
        items.push(last).contains(x) <==> items.contains(x) || x == last,
{
    if items.contains(x) {
        let i = choose|i: int| 0 <= i < items.len() && items[i] == x;
        assert(items.push(last)[i] == x);
    }
    assert(items.push(last)[items.len() as int] == last);
}

/// No more of what a test printed is shown than the cap allows.
pub proof fn law_printed_tail_is_capped(output: Seq<char>)
    ensures
        printed_tail(output).len() <= STDOUT_TAIL_CAP,
{
    let tail = crate::rich::last_chars(text::strip_ansi(output), STDOUT_TAIL_CAP as nat);
    lemma_trim_start_len(tail);
    text::lemma_trim_end(text::trim_start(tail));
}

proof fn lemma_trim_start_len(s: Seq<char>)
    ensures
        text::trim_start(s).len() <= s.len(),
    decreases s.len(),
{
    if s.len() > 0 && text::is_space(s[0]) {
        lemma_trim_start_len(s.skip(1));
    }
}

/// A test that passed leaves no trace in the report: without it, the report is
/// the same.
pub proof fn law_passed_tests_leave_no_trace(stats: PlaywrightStats, specs: Seq<Located>, i: int)
    requires
        0 <= i < specs.len(),
        specs[i].spec.ok,
    ensures
        rich_report(stats, failing(specs.remove(i))) == rich_report(stats, failing(specs)),
{
    let front = specs.take(i);
    let back = specs.skip(i + 1);
    assert(specs.remove(i) == front + back);
    assert(specs == front.push(specs[i]) + back);
    lemma_failing_push(front, specs[i]);
    lemma_failing_add(front, back);
    lemma_failing_add(front.push(specs[i]), back);
}

/// The failures of a parsed document are the failed tests of its report, in the
/// same order, and no more than there are tests.
pub proof fn law_failures_are_the_failed_tests(specs: Seq<Located>)
    ensures
        failures_of(specs).len() == failing(specs).len() <= specs.len(),
        forall|i: int|
            0 <= i < failing(specs).len() ==> (#[trigger] failures_of(specs)[i]).test_name
                == failing(specs)[i].spec.title@ && failures_of(specs)[i].file_path == failing(
                specs,
            )[i].file,
{
    lemma_failing_len(specs);
}

/// Where the user chose the reporter of the tests, Playwright gets the arguments
/// as they are.
pub proof fn law_user_reporter_is_honoured(args: Seq<Seq<char>>)
    requires
        is_test(args),
        chooses_reporter(args),
    ensures
        mode_of(args) == OutputMode::UserReporter,
        playwright_args(args) == args,
{
}

/// Where the user chose no reporter for the tests, JSON is asked for behind
/// `test`, and nothing else is changed.
pub proof fn law_json_is_the_only_addition(args: Seq<Seq<char>>)
    requires
        is_test(args),
        !chooses_reporter(args),
    ensures
        playwright_args(args).len() == args.len() + 1,
        playwright_args(args)[1] == "--reporter=json"@,
        playwright_args(args).remove(1) == args,
{
    reveal_strlit("test");
    reveal_strlit("install");
    reveal_strlit("install-deps");
    assert("test"@[0] != "install"@[0]);
    assert("test"@[0] != "install-deps"@[0]);
    assert(playwright_args(args).remove(1) == args);
}

/// The report on an installation is empty only where its output was.
pub proof fn law_installation_is_never_silent(input: Seq<char>)
    requires
        input.len() > 0,
    ensures
        install_report(input).len() > 0,
{
    let lines = text::lines(text::strip_ansi(input));
    let kinds = lines.map_values(|line: Seq<char>| matched_kind(line));
    let kept = kept_lines(lines, kinds);
    if kept.len() > 0 {
        let j = law_only_kept_lines_are_shown(lines, kinds, 0);
        assert(kinds[j] == matched_kind(lines[j]));
        assert(text::trim(lines[j]).len() > 0);
        lemma_trim_start_len(lines[j]);
        text::lemma_trim_end(text::trim_start(lines[j]));
        lemma_kept_line_is_shown(input, lines, kinds, 0);
        let at = choose|at: int| text::occurs_at(install_report(input), kept[0], at);
        assert(text::occurs_at(install_report(input), kept[0], at));
    }
}

/// Every line that is shown is a line of the output, and one that is kept.
pub proof fn law_only_kept_lines_are_shown(
    lines: Seq<Seq<char>>,
    kinds: Seq<LineKind>,
    i: int,
) -> (j: int)
    requires
        0 <= i < kept_lines(lines, kinds).len(),
    ensures
        0 <= j < lines.len(),
        lines[j] == kept_lines(lines, kinds)[i],
        kinds[j] == LineKind::Kept,
    decreases lines.len(),
{
    let short = lines.drop_last();
    if i < kept_lines(short, kinds).len() {
        law_only_kept_lines_are_shown(short, kinds, i)
    } else {
        lines.len() - 1
    }
}

proof fn lemma_kept_line_is_shown(
    input: Seq<char>,
    lines: Seq<Seq<char>>,
    kinds: Seq<LineKind>,
    i: int,
)
    requires
        0 <= i < kept_lines(lines, kinds).len(),
    ensures
        text::contains(kinds_report(input, lines, kinds), kept_lines(lines, kinds)[i]),
{
    let kept = kept_lines(lines, kinds);
    let omitted = download_count(kinds);
    text::lemma_join_contains(kept, "\n"@, i);
    text::lemma_join_contains(kept.push(omission_note(omitted)), "\n"@, i);
}

/// A line of the output of an installation that shows no progress, announces no
/// download and is not empty or a separator stands in the report.
pub proof fn law_actionable_lines_survive(input: Seq<char>, j: int)
    requires
        0 <= j < text::lines(text::strip_ansi(input)).len(),
    ensures
        ({
            let line = text::lines(text::strip_ansi(input))[j];
            &&& !regex_is_match(PROGRESS_BAR_PATTERN@, line)
            &&& !regex_is_match(BYTES_PATTERN@, line)
            &&& !regex_is_match(DOWNLOAD_PATTERN@, line)
            &&& text::trim(line).len() > 0
            &&& !is_separator(text::trim(line))
        }) ==> text::contains(
            install_report(input),
            text::lines(text::strip_ansi(input))[j],
        ),
{
    let lines = text::lines(text::strip_ansi(input));
    let kinds = lines.map_values(|line: Seq<char>| matched_kind(line));
    if kinds[j] == LineKind::Kept {
        let i = lemma_line_is_kept(lines, kinds, j);
        lemma_kept_line_is_shown(input, lines, kinds, i);
    }
}

proof fn lemma_line_is_kept(lines: Seq<Seq<char>>, kinds: Seq<LineKind>, j: int) -> (i: int)
    requires
        0 <= j < lines.len() <= kinds.len(),
        kinds[j] == LineKind::Kept,
    ensures
        0 <= i < kept_lines(lines, kinds).len(),
        kept_lines(lines, kinds)[i] == lines[j],
    decreases lines.len(),
{
    if j == lines.len() - 1 {
        kept_lines(lines, kinds).len() - 1
    } else {
        lemma_line_is_kept(lines.drop_last(), kinds, j)
    }
}

/// Prettier's files are reported as all in order if and only if there is output
/// that names no file and no issue, and that is not about files written without
/// saying that all match.
pub proof fn law_success_means_nothing_flagged(output: Seq<char>)
    ensures
        prettier_report(output) == success_text() <==> {
            &&& text::trim(output).len() > 0
            &&& files_to_format(text::lines(output)).len() == 0
            &&& !issues_found(text::lines(output))
            &&& text::contains(output, "All matched files use Prettier"@) || !is_write_mode(output)
        },
{
    let files = files_to_format(text::lines(output));
    let checked = files_checked(text::lines(output)) as nat;
    reveal_strlit("Error: prettier produced no output");
    reveal_strlit("Prettier: All files formatted correctly");
    reveal_strlit("Prettier: code style issues found (see raw output for details)");
    assert("Error: prettier produced no output"@[0] != success_text()[0]);
    assert("Prettier: code style issues found (see raw output for details)"@[10]
        != success_text()[10]);
    assert(success_text()[10] == 'A');
    lemma_heading_shows_number(files.len(), " files formatted\n"@);
    lemma_success_line();
    let rest = numbered(files, listed(files)) + (if files.len()
        > MAX_PRETTIER_FILES {
        "\n... +"@ + text::decimal(
            (files.len() - MAX_PRETTIER_FILES) as nat,
        ) + " more files\n"@
    } else {
        seq![]
    }) + (if checked > 0 {
        "\n"@ + text::decimal((checked - files.len()) as nat) + " files already formatted\n"@
    } else {
        seq![]
    });
    lemma_heading_shows_number(files.len(), " files need formatting\n"@ + rest);
    assert(check_report(files, checked) == "Prettier: "@ + text::decimal(files.len()) + (
    " files need formatting\n"@ + rest));
}

/// A report that starts with a number does so after trimming too.
proof fn lemma_heading_shows_number(n: nat, rest: Seq<char>)
    ensures
        text::trim("Prettier: "@ + text::decimal(n) + rest).len() > 10,
        text::is_digit(text::trim("Prettier: "@ + text::decimal(n) + rest)[10]),
{
    reveal_strlit("Prettier: ");
    let s = "Prettier: "@ + text::decimal(n) + rest;
    text::lemma_decimal_is_digits(n);
    assert(s[0] == 'P');
    assert(s[10] == text::decimal(n)[0]);
    assert(text::is_digit(s[10]));
    assert(text::trim_start(s) == s);
    text::lemma_trim_end(s);
    assert(!text::is_space(s[10]));
}

proof fn lemma_success_line()
    ensures
        text::trim("Prettier: All files formatted correctly\n"@) == success_text(),
{
    reveal_strlit("Prettier: All files formatted correctly\n");
    reveal_strlit("Prettier: All files formatted correctly");
    let s = "Prettier: All files formatted correctly\n"@;
    assert(s[0] == 'P');
    assert(text::trim_start(s) == s);
    assert(s.last() == '\n');
    let short = s.drop_last();
    assert(short == success_text());
    assert(short.last() == 'y');
    assert(text::trim_end(short) == short);
}

/// A check shows each of the first files that need formatting.
pub proof fn law_failing_files_are_shown(output: Seq<char>, i: int)
    requires
        counts_agree(output),
        !is_write_mode(output),
        0 <= i < listed(files_to_format(text::lines(output))),
    ensures
        text::contains(prettier_report(output), files_to_format(text::lines(output))[i]),
{
    let lines = text::lines(output);
    let files = files_to_format(lines);
    let checked = files_checked(lines) as nat;
    let file = files[i];
    let k = lemma_file_line(lines, i);
    lemma_path_ends_in_letter(file);
    reveal_strlit("[warn] ");
    lemma_output_is_not_blank(output, k);
    lemma_numbered_contains(files, listed(files), i);
    let head = "Prettier: "@ + text::decimal(files.len()) + " files need formatting\n"@;
    let list = numbered(files, listed(files));
    let more = if files.len() > MAX_PRETTIER_FILES {
        "\n... +"@ + text::decimal((files.len() - MAX_PRETTIER_FILES) as nat)
            + " more files\n"@
    } else {
        seq![]
    };
    let formatted = if checked > 0 {
        "\n"@ + text::decimal((checked - files.len()) as nat) + " files already formatted\n"@
    } else {
        seq![]
    };
    text::lemma_contains_add(head, list, file);
    text::lemma_contains_add(head + list, more, file);
    text::lemma_contains_add(head + list + more, formatted, file);
    let whole = check_report(files, checked);
    assert(whole == head + list + more + formatted);
    reveal_strlit("Prettier: ");
    assert(whole[0] == 'P');
    assert(text::trim_start(whole) == whole);
    text::lemma_trim_end_contains(whole, file);
}

/// The line that names a file.
proof fn lemma_file_line(lines: Seq<Seq<char>>, i: int) -> (k: int)
    requires
        0 <= i < files_to_format(lines).len(),
    ensures
        0 <= k < lines.len(),
        names_file(lines[k]),
        unprefixed(lines[k]) == files_to_format(lines)[i],
    decreases lines.len(),
{
    let short = lines.drop_last();
    if i < files_to_format(short).len() {
        lemma_file_line(short, i)
    } else {
        lines.len() - 1
    }
}

proof fn lemma_numbered_contains(files: Seq<Seq<char>>, n: nat, i: int)
    requires
        0 <= i < n <= files.len(),
    ensures
        text::contains(numbered(files, n), files[i]),
    decreases n,
{
    let before = numbered(files, (n - 1) as nat);
    let number = text::decimal(n);
    let file = files[n - 1];
    if i < n - 1 {
        lemma_numbered_contains(files, (n - 1) as nat, i);
        text::lemma_contains_add(before, number, files[i]);
        text::lemma_contains_add(before + number, ". "@, files[i]);
    } else {
        text::lemma_contains_self(file);
    }
    text::lemma_contains_add(before + number + ". "@, file, files[i]);
    text::lemma_contains_add(before + number + ". "@ + file, "\n"@, files[i]);
}

/// The last character of a suffix is that of the text.
proof fn lemma_suffix_last(s: Seq<char>, suffix: Seq<char>)
    requires
        text::has_suffix(s, suffix),
        suffix.len() > 0,
    ensures
        s.len() > 0,
        s.last() == suffix.last(),
{
    assert(s.skip(s.len() - suffix.len()).last() == s.last());
}

/// A path with one of the extensions ends in no white space.
proof fn lemma_path_ends_in_letter(s: Seq<char>)
    requires
        source_path(s),
    ensures
        s.len() > 0,
        !text::is_space(s.last()),
{
    reveal_strlit(".ts");
    reveal_strlit(".tsx");
    reveal_strlit(".js");
    reveal_strlit(".jsx");
    reveal_strlit(".mjs");
    reveal_strlit(".cjs");
    reveal_strlit(".json");
    reveal_strlit(".md");
    reveal_strlit(".mdx");
    reveal_strlit(".yml");
    reveal_strlit(".yaml");
    reveal_strlit(".html");
    reveal_strlit(".vue");
    reveal_strlit(".svelte");
    reveal_strlit(".css");
    reveal_strlit(".scss");
    reveal_strlit(".less");
    assert forall|suffix: Seq<char>| #[trigger]
        text::has_suffix(s, suffix) && suffix.len() > 0 implies s.len() > 0 && s.last()
        == suffix.last() by {
        lemma_suffix_last(s, suffix);
    }
}

/// A file that needs formatting is recognised as Prettier 2 names it, by its path
/// alone, and as Prettier 3 does, behind `[warn]`.
pub proof fn law_both_forms_are_recognised(path: Seq<char>)
    requires
        source_path(path),
        is_bare(path),
        !text::has_prefix(path, "Checking"@),
        !text::has_prefix(path, "All matched"@),
    ensures
        names_file(path),
        unprefixed(path) == path,
        names_file("[warn] "@ + path),
        unprefixed("[warn] "@ + path) == path,
{
    lemma_warned_line(path);
}

/// A line as Prettier 2 writes it: without white space around it, and without the
/// words that Prettier 3 starts a line with. Behind `[warn]`, the words
/// `Code style` would sum the issues up.
pub open spec fn is_bare(line: Seq<char>) -> bool {
    &&& line.len() > 0
    &&& text::trim(line) == line
    &&& !text::has_prefix(line, "[warn] "@)
    &&& !text::has_prefix(line, "[error]"@)
    &&& !text::has_prefix(line, "Code style"@)
}

/// `lines`, each behind `[warn]`, as Prettier 3 writes them.
pub open spec fn warned(lines: Seq<Seq<char>>) -> Seq<Seq<char>> {
    lines.map_values(|line: Seq<char>| "[warn] "@ + line)
}

/// The report does not depend on the form: lines as Prettier 2 writes them give
/// the same report as the same lines behind `[warn]`. Left out are lines with a
/// number of files that are in order: behind `[warn]` the number is not read.
pub proof fn law_both_forms_give_one_report(lines: Seq<Seq<char>>)
    requires
        forall|i: int|
            0 <= i < lines.len() ==> is_bare(#[trigger] lines[i]) && !lines[i].contains('\n'),
        files_checked(lines) == 0,
    ensures
        prettier_report(text::join(lines, "\n"@)) == prettier_report(
            text::join(warned(lines), "\n"@),
        ),
        counts_agree(text::join(lines, "\n"@)),
        counts_agree(text::join(warned(lines), "\n"@)),
{
    let w = warned(lines);
    let bare_output = text::join(lines, "\n"@);
    let warned_output = text::join(w, "\n"@);
    lemma_joined_bare_lines(lines);
    lemma_warned_findings(lines);
    lemma_warned_success(lines);
    if lines.len() == 0 {
        assert(w == lines);
    } else {
        assert(is_bare(lines[0]));
        lemma_warned_line(lines[0]);
        assert(w[0] == "[warn] "@ + lines[0]);
        lemma_output_is_not_blank(bare_output, 0);
        lemma_output_is_not_blank(warned_output, 0);
    }
    lemma_findings_decide(bare_output, warned_output);
}

/// The report depends on the findings alone.
proof fn lemma_findings_decide(a: Seq<char>, b: Seq<char>)
    requires
        text::trim(a).len() == 0 <==> text::trim(b).len() == 0,
        files_to_format(text::lines(a)) == files_to_format(text::lines(b)),
        files_checked(text::lines(a)) == files_checked(text::lines(b)),
        issues_found(text::lines(a)) == issues_found(text::lines(b)),
        files_written(text::lines(a)) == files_written(text::lines(b)),
        text::contains(a, "All matched files use Prettier"@) == text::contains(
            b,
            "All matched files use Prettier"@,
        ),
    ensures
        prettier_report(a) == prettier_report(b),
{
}

/// Bare lines are the lines of the output that they make up, in either form.
proof fn lemma_joined_bare_lines(lines: Seq<Seq<char>>)
    requires
        forall|i: int|
            0 <= i < lines.len() ==> is_bare(#[trigger] lines[i]) && !lines[i].contains('\n'),
    ensures
        text::lines(text::join(lines, "\n"@)) == lines,
        text::lines(text::join(warned(lines), "\n"@)) == warned(lines),
{
    let w = warned(lines);
    assert forall|i: int| 0 <= i < lines.len() implies text::is_whole_line(#[trigger] lines[i]) by {
        assert(is_bare(lines[i]));
        lemma_bare_ends(lines[i]);
    }
    assert forall|i: int| 0 <= i < w.len() implies text::is_whole_line(#[trigger] w[i]) by {
        assert(text::is_whole_line(lines[i]));
        lemma_warned_is_whole(lines[i]);
    }
    text::lemma_lines_of_join(lines);
    text::lemma_lines_of_join(w);
}

/// Either form says that all is in order, or neither does.
proof fn lemma_warned_success(lines: Seq<Seq<char>>)
    ensures
        text::contains(text::join(lines, "\n"@), "All matched files use Prettier"@)
            == text::contains(
            text::join(warned(lines), "\n"@),
            "All matched files use Prettier"@,
        ),
{
    let w = warned(lines);
    let all = "All matched files use Prettier"@;
    assert(all.len() > 0 && all[0] == 'A' && !all.contains('\n')) by {
        reveal_strlit("All matched files use Prettier");
    }
    text::lemma_joined_contains(lines, all);
    text::lemma_joined_contains(w, all);
    assert forall|i: int| 0 <= i < lines.len() implies text::contains(#[trigger] lines[i], all)
        == text::contains(w[i], all) by {
        lemma_contains_behind_warn(lines[i], all);
    }
    if exists|i: int| 0 <= i < lines.len() && text::contains(#[trigger] lines[i], all) {
        let i = choose|i: int| 0 <= i < lines.len() && text::contains(#[trigger] lines[i], all);
        assert(text::contains(w[i], all));
    }
    if exists|i: int| 0 <= i < w.len() && text::contains(#[trigger] w[i], all) {
        let i = choose|i: int| 0 <= i < w.len() && text::contains(#[trigger] w[i], all);
        assert(text::contains(lines[i], all));
    }
}

proof fn lemma_bare_ends(line: Seq<char>)
    requires
        is_bare(line),
    ensures
        !text::is_space(line[0]),
        !text::is_space(line.last()),
{
    lemma_trim_start_len(line);
    text::lemma_trim_end(text::trim_start(line));
    if text::is_space(line[0]) {
        lemma_trim_start_len(line.skip(1));
    }
    assert(text::trim_start(line) == line);
    if text::is_space(line.last()) {
        text::lemma_trim_end(line.drop_last());
    }
}

proof fn lemma_warned_is_whole(line: Seq<char>)
    requires
        text::is_whole_line(line),
    ensures
        text::is_whole_line("[warn] "@ + line),
{
    reveal_strlit("[warn] ");
    let w = "[warn] "@ + line;
    assert(w.last() == line.last());
    if w.contains('\n') {
        let i = choose|i: int| 0 <= i < w.len() && w[i] == '\n';
        assert(i >= 7);
        assert(line[i - 7] == '\n');
    }
}

/// Output with a line that is not blank is not blank.
proof fn lemma_output_is_not_blank(output: Seq<char>, k: int)
    requires
        0 <= k < text::lines(output).len(),
        text::trim(text::lines(output)[k]).len() > 0,
    ensures
        text::trim(output).len() > 0,
{
    if text::trim(output).len() == 0 {
        text::lemma_trimmed_to_nothing(output);
        text::lemma_lines_of_space(output, k);
        text::lemma_space_is_trimmed(text::lines(output)[k]);
    }
}

/// `[warn]` in front of a line adds no word to it.
proof fn lemma_contains_behind_warn(line: Seq<char>, word: Seq<char>)
    requires
        word.len() > 0,
        word[0] == 'A' || word[0] == 'm' || word[0] == 'f',
    ensures
        text::contains("[warn] "@ + line, word) == text::contains(line, word),
{
    reveal_strlit("[warn] ");
    text::lemma_contains_behind("[warn] "@, line, word);
}

/// A line says the same by itself and behind `[warn]`, where it does not count
/// files.
proof fn lemma_warned_line(line: Seq<char>)
    requires
        is_bare(line),
    ensures
        text::trim("[warn] "@ + line) == "[warn] "@ + line,
        unprefixed(line) == line,
        unprefixed("[warn] "@ + line) == line,
        !is_issue_line(line),
        !is_issue_line("[warn] "@ + line),
        names_file("[warn] "@ + line) == names_file(line),
        is_write_line("[warn] "@ + line) == is_write_line(line),
        checked_count("[warn] "@ + line) is None,
{
    reveal_strlit("[warn] ");
    reveal_strlit("[error]");
    reveal_strlit("Code style");
    reveal_strlit("[warn] Code style");
    reveal_strlit("modified");
    reveal_strlit("formatted");
    let w = "[warn] "@ + line;
    lemma_bare_ends(line);
    assert(w[0] == '[');
    assert(text::trim_start(w) == w);
    assert(w.last() == line.last());
    assert(text::trim(w) == w);
    assert(w.take(7) == "[warn] "@);
    assert(w.skip(7) == line);
    if text::has_prefix(line, "[warn] Code style"@) {
        assert(line.take(7) == line.take(17).take(7));
        assert("[warn] Code style"@.take(7) == "[warn] "@);
    }
    if text::has_prefix(w, "[warn] Code style"@) {
        assert(line.take(10) == w.take(17).skip(7));
        assert("[warn] Code style"@.skip(7) == "Code style"@);
    }
    if text::has_prefix(w, "[error]"@) {
        assert(w.take(7)[1] == w[1]);
        assert("[error]"@[1] != "[warn] "@[1]);
    }
    lemma_contains_behind_warn(line, "modified"@);
    lemma_contains_behind_warn(line, "formatted"@);
    let word = text::up_to_space(w);
    assert(word[0] == '[');
    assert(!text::is_digit(word[0]));
    assert(text::parse_usize(word) is None);
}

/// The findings do not depend on the form of the lines.
proof fn lemma_warned_findings(lines: Seq<Seq<char>>)
    requires
        forall|i: int| 0 <= i < lines.len() ==> is_bare(#[trigger] lines[i]),
    ensures
        files_to_format(warned(lines)) == files_to_format(lines),
        files_checked(warned(lines)) == 0,
        issues_found(warned(lines)) == issues_found(lines),
        files_written(warned(lines)) == files_written(lines),
    decreases lines.len(),
{
    let w = warned(lines);
    assert forall|i: int| 0 <= i < lines.len() implies !is_issue_line(#[trigger] lines[i])
        && !is_issue_line(w[i]) && is_write_line(w[i]) == is_write_line(lines[i]) by {
        assert(is_bare(lines[i]));
        lemma_warned_line(lines[i]);
    }
    if files_written(lines) {
        let i = choose|i: int| 0 <= i < lines.len() && is_write_line(#[trigger] lines[i]);
        assert(is_write_line(w[i]));
    }
    if files_written(w) {
        let i = choose|i: int| 0 <= i < w.len() && is_write_line(#[trigger] w[i]);
        assert(is_write_line(lines[i]));
    }
    if issues_found(w) {
        let i = choose|i: int| 0 <= i < w.len() && is_issue_line(#[trigger] w[i]);
        assert(!is_issue_line(lines[i]));
    }
    if lines.len() > 0 {
        let short = lines.drop_last();
        lemma_warned_findings(short);
        assert(w.drop_last() == warned(short));
        assert(is_bare(lines[lines.len() - 1]));
        lemma_warned_line(lines.last());
        assert(w.last() == "[warn] "@ + lines.last());
    }
}

/// Filtering the output of an installation twice gives what filtering it once
/// gives. Left out is output in which stripping brings further control sequences
/// about, or in which carriage returns stand in front of a line ending. The
/// patterns must not take the note on omitted lines for noise.
pub proof fn law_filtering_twice_is_filtering_once(input: Seq<char>)
    requires
        !text::has_control(text::strip_ansi(input)),
        forall|i: int|
            0 <= i < text::lines(text::strip_ansi(input)).len() && text::lines(
                text::strip_ansi(input),
            )[i].len() > 0 ==> (#[trigger] text::lines(text::strip_ansi(input))[i]).last() != '\r',
        forall|n: nat| matched_kind(#[trigger] omission_note(n)) == LineKind::Kept,
    ensures
        install_report(install_report(input)) == install_report(input),
{
    let clean = text::strip_ansi(input);
    let lines = text::lines(clean);
    let kinds = lines.map_values(|line: Seq<char>| matched_kind(line));
    let kept = kept_lines(lines, kinds);
    let omitted = download_count(kinds);
    if kept.len() > 0 {
        let shown = if omitted > 0 {
            kept.push(omission_note(omitted))
        } else {
            kept
        };
        assert forall|i: int| 0 <= i < shown.len() implies text::is_whole_line(#[trigger] shown[i])
            && !text::has_control(shown[i]) && matched_kind(shown[i]) == LineKind::Kept by {
            if i < kept.len() {
                let j = law_only_kept_lines_are_shown(lines, kinds, i);
                assert(kinds[j] == matched_kind(lines[j]));
                text::lemma_lines_hold_no_line_feed(clean);
                lemma_trim_start_len(lines[j]);
                text::lemma_trim_end(text::trim_start(lines[j]));
                let at = text::lemma_line_within(clean, j);
                text::lemma_has_control_within(clean, at, at + lines[j].len());
            } else {
                lemma_note_is_plain(omitted);
            }
        }
        lemma_kept_lines_stay(shown);
    }
}

/// Lines that are kept, joined, are their own report.
proof fn lemma_kept_lines_stay(shown: Seq<Seq<char>>)
    requires
        shown.len() > 0,
        forall|i: int|
            0 <= i < shown.len() ==> text::is_whole_line(#[trigger] shown[i]) && !text::has_control(
                shown[i],
            ) && matched_kind(shown[i]) == LineKind::Kept,
    ensures
        install_report(text::join(shown, "\n"@)) == text::join(shown, "\n"@),
{
    let report = text::join(shown, "\n"@);
    text::lemma_joined_control(shown);
    text::lemma_strip_ansi_fixed(report);
    text::lemma_lines_of_join(shown);
    let kinds = shown.map_values(|line: Seq<char>| matched_kind(line));
    assert forall|i: int| 0 <= i < kinds.len() implies #[trigger] kinds[i] == LineKind::Kept by {
        assert(matched_kind(shown[i]) == LineKind::Kept);
    }
    lemma_all_lines_kept(shown, kinds);
    lemma_no_downloads(kinds);
}

proof fn lemma_all_lines_kept(lines: Seq<Seq<char>>, kinds: Seq<LineKind>)
    requires
        lines.len() <= kinds.len(),
        forall|i: int| 0 <= i < kinds.len() ==> #[trigger] kinds[i] == LineKind::Kept,
    ensures
        kept_lines(lines, kinds) == lines,
    decreases lines.len(),
{
    if lines.len() > 0 {
        lemma_all_lines_kept(lines.drop_last(), kinds);
        assert(lines.drop_last().push(lines.last()) == lines);
    }
}

proof fn lemma_no_downloads(kinds: Seq<LineKind>)
    requires
        forall|i: int| 0 <= i < kinds.len() ==> #[trigger] kinds[i] == LineKind::Kept,
    ensures
        download_count(kinds) == 0,
    decreases kinds.len(),
{
    if kinds.len() > 0 {
        lemma_no_downloads(kinds.drop_last());
    }
}

/// The note on omitted lines is one line, without control sequences.
proof fn lemma_note_is_plain(n: nat)
    ensures
        text::is_whole_line(omission_note(n)),
        !text::has_control(omission_note(n)),
{
    reveal_strlit("(");
    reveal_strlit(" download progress lines omitted)");
    text::lemma_decimal_is_digits(n);
    let note = omission_note(n);
    let number = text::decimal(n);
    let tail = " download progress lines omitted)"@;
    assert(note.last() == tail.last());
    assert(!tail.contains('\n') && !tail.contains('\u{1b}'));
    assert forall|i: int| 0 <= i < note.len() implies #[trigger] note[i] != '\n' && note[i]
        != '\u{1b}' by {
        if 1 <= i < 1 + number.len() {
            assert(note[i] == number[i - 1]);
        } else if i > 0 {
            let k = i - 1 - number.len();
            assert(note[i] == tail[k]);
            assert(tail.contains(tail[k]));
        }
    }
    if text::has_control(note) {
        let (i, k) = choose|i: int, k: int| text::control_at(note, i, k);
        assert(note[i] == '\u{1b}');
    }
}

} // verus!
