//! Prettier's output, reduced to the files that need formatting.

use vstd::prelude::*;
use vstd::slice::slice_subrange;
use crate::chars::{self, views};
use crate::text;

verus! {

/// How many files are listed.
pub const MAX_PRETTIER_FILES: usize = 10;

/// The report on files that are all in order.
pub open spec fn success_text() -> Seq<char> {
    "Prettier: All files formatted correctly"@
}

/// A path with one of the extensions that Prettier formats.
pub open spec fn source_path(s: Seq<char>) -> bool {
    ||| text::has_suffix(s, ".ts"@)
    ||| text::has_suffix(s, ".tsx"@)
    ||| text::has_suffix(s, ".js"@)
    ||| text::has_suffix(s, ".jsx"@)
    ||| text::has_suffix(s, ".mjs"@)
    ||| text::has_suffix(s, ".cjs"@)
    ||| text::has_suffix(s, ".json"@)
    ||| text::has_suffix(s, ".md"@)
    ||| text::has_suffix(s, ".mdx"@)
    ||| text::has_suffix(s, ".yml"@)
    ||| text::has_suffix(s, ".yaml"@)
    ||| text::has_suffix(s, ".html"@)
    ||| text::has_suffix(s, ".vue"@)
    ||| text::has_suffix(s, ".svelte"@)
    ||| text::has_suffix(s, ".css"@)
    ||| text::has_suffix(s, ".scss"@)
    ||| text::has_suffix(s, ".less"@)
}

/// A line that says that there are style issues or errors, without naming a
/// file that needs formatting.
pub open spec fn is_issue_line(line: Seq<char>) -> bool {
    let t = text::trim(line);
    text::has_prefix(t, "[warn] Code style"@) || text::has_prefix(t, "[error]"@)
}

/// A line without the white space around it and without the `[warn]` that
/// Prettier 3 puts in front of a path.
pub open spec fn unprefixed(line: Seq<char>) -> Seq<char> {
    let t = text::trim(line);
    if text::has_prefix(t, "[warn] "@) {
        t.skip(7)
    } else {
        t
    }
}

/// The line names a file that needs formatting.
pub open spec fn names_file(line: Seq<char>) -> bool {
    let path = unprefixed(line);
    &&& !is_issue_line(line)
    &&& !text::has_prefix(path, "Checking"@)
    &&& !text::has_prefix(path, "All matched"@)
    &&& !text::has_prefix(path, "Code style"@)
    &&& source_path(path)
}

/// The files that the lines name, in order.
pub open spec fn files_to_format(lines: Seq<Seq<char>>) -> Seq<Seq<char>>
    decreases lines.len(),
{
    if lines.len() == 0 {
        seq![]
    } else {
        let rest = files_to_format(lines.drop_last());
        if names_file(lines.last()) {
            rest.push(unprefixed(lines.last()))
        } else {
            rest
        }
    }
}

/// Some line says that there are style issues or errors.
pub open spec fn issues_found(lines: Seq<Seq<char>>) -> bool {
    exists|i: int| 0 <= i < lines.len() && is_issue_line(#[trigger] lines[i])
}

/// The number of files that a line says are in order, if it says one.
pub open spec fn checked_count(line: Seq<char>) -> Option<usize> {
    let t = text::trim(line);
    if !is_issue_line(line) && text::contains(t, "All matched files use Prettier"@) {
        match text::first_word(t) {
            Some(word) => text::parse_usize(word),
            None => None,
        }
    } else {
        None
    }
}

/// The last number of files that the lines say are in order; zero where none
/// says one.
pub open spec fn files_checked(lines: Seq<Seq<char>>) -> usize
    decreases lines.len(),
{
    if lines.len() == 0 {
        0
    } else {
        match checked_count(lines.last()) {
            Some(n) => n,
            None => files_checked(lines.drop_last()),
        }
    }
}

/// A line that says that files were written. A path, or a line about an issue,
/// does not say so, whatever words it holds.
pub open spec fn is_write_line(line: Seq<char>) -> bool {
    &&& !names_file(line)
    &&& !is_issue_line(line)
    &&& text::contains(line, "modified"@) || text::contains(line, "formatted"@)
}

/// Some line says that files were written.
pub open spec fn files_written(lines: Seq<Seq<char>>) -> bool {
    exists|i: int| 0 <= i < lines.len() && is_write_line(#[trigger] lines[i])
}

/// Prettier was asked to write files, not to check them.
pub open spec fn is_write_mode(output: Seq<char>) -> bool {
    files_written(text::lines(output))
}

/// The first `n` of `files`, a numbered line for each.
pub open spec fn numbered(files: Seq<Seq<char>>, n: nat) -> Seq<char>
    decreases n,
{
    if n == 0 {
        seq![]
    } else {
        numbered(files, (n - 1) as nat) + text::decimal(n) + ". "@ + files[n - 1] + "\n"@
    }
}

/// How many of `files` are listed.
pub open spec fn listed(files: Seq<Seq<char>>) -> nat {
    if files.len() < MAX_PRETTIER_FILES {
        files.len()
    } else {
        MAX_PRETTIER_FILES as nat
    }
}

/// The report on files that need formatting, of which there are some.
pub open spec fn check_report(files: Seq<Seq<char>>, checked: nat) -> Seq<char> {
    "Prettier: "@ + text::decimal(files.len()) + " files need formatting\n"@ + numbered(
        files,
        listed(files),
    ) + (if files.len() > MAX_PRETTIER_FILES {
        "\n... +"@ + text::decimal((files.len() - MAX_PRETTIER_FILES) as nat) + " more files\n"@
    } else {
        seq![]
    }) + (if checked > 0 {
        "\n"@ + text::decimal((checked - files.len()) as nat) + " files already formatted\n"@
    } else {
        seq![]
    })
}

/// The report on output with these findings.
pub open spec fn findings_report(
    output: Seq<char>,
    files: Seq<Seq<char>>,
    checked: nat,
    issues: bool,
    written: bool,
) -> Seq<char> {
    if text::trim(output).len() == 0 {
        "Error: prettier produced no output"@
    } else if files.len() == 0 && issues {
        "Prettier: code style issues found (see raw output for details)"@
    } else if files.len() == 0 && text::contains(output, "All matched files use Prettier"@) {
        success_text()
    } else if written {
        text::trim("Prettier: "@ + text::decimal(files.len()) + " files formatted\n"@)
    } else if files.len() == 0 {
        text::trim("Prettier: All files formatted correctly\n"@)
    } else {
        text::trim(check_report(files, checked))
    }
}

/// The report on `output`.
pub open spec fn prettier_report(output: Seq<char>) -> Seq<char> {
    let lines = text::lines(output);
    findings_report(
        output,
        files_to_format(lines),
        files_checked(lines) as nat,
        issues_found(lines),
        files_written(lines),
    )
}

/// Where a check names a number of files that are in order and also files that
/// are not, it names no more of the latter.
pub open spec fn counts_agree(output: Seq<char>) -> bool {
    let files = files_to_format(text::lines(output));
    let checked = files_checked(text::lines(output));
    files.len() > 0 && !is_write_mode(output) && checked > 0 ==> files.len() <= checked
}

/// Whether `s` ends with one of the extensions that Prettier formats.
pub fn has_source_extension(s: &str) -> (r: bool)
    ensures
        r == source_path(s@),
{
    is_source_path(chars::to_chars(s).as_slice())
}

/// Whether `s` ends with one of the extensions that Prettier formats.
fn is_source_path(s: &[char]) -> (r: bool)
    ensures
        r == source_path(s@),
{
    chars::ends_with(s, ".ts") || chars::ends_with(s, ".tsx") || chars::ends_with(s, ".js")
        || chars::ends_with(s, ".jsx") || chars::ends_with(s, ".mjs") || chars::ends_with(s, ".cjs")
        || chars::ends_with(s, ".json") || chars::ends_with(s, ".md") || chars::ends_with(s, ".mdx")
        || chars::ends_with(s, ".yml") || chars::ends_with(s, ".yaml") || chars::ends_with(
        s,
        ".html",
    ) || chars::ends_with(s, ".vue") || chars::ends_with(s, ".svelte") || chars::ends_with(
        s,
        ".css",
    ) || chars::ends_with(s, ".scss") || chars::ends_with(s, ".less")
}

/// What Prettier's output says.
struct Findings<'a> {
    files: Vec<&'a [char]>,
    checked: usize,
    issues: bool,
    written: bool,
}

impl<'a> Findings<'a> {
    /// The findings are those of `output`.
    spec fn are_of(self, output: Seq<char>) -> bool {
        let lines = text::lines(output);
        &&& views(self.files@) == files_to_format(lines)
        &&& self.checked == files_checked(lines)
        &&& self.issues == issues_found(lines)
        &&& self.written == files_written(lines)
    }
}

/// Reads what the lines of `output` say.
fn find<'a>(output: &'a [char]) -> (r: Findings<'a>)
    ensures
        r.are_of(output@),
{
    let lines = chars::lines(output);
    let ghost all = text::lines(output@);
    let mut files: Vec<&'a [char]> = Vec::new();
    let mut checked: usize = 0;
    let mut issues: bool = false;
    let mut written: bool = false;
    let mut i: usize = 0;
    assert(views(files@) == files_to_format(all.take(0)));
    while i < lines.len()
        invariant
            i <= lines.len(),
            views(lines@) == all,
            views(files@) == files_to_format(all.take(i as int)),
            checked == files_checked(all.take(i as int)),
            issues == issues_found(all.take(i as int)),
            written == files_written(all.take(i as int)),
        decreases lines.len() - i,
    {
        let line = lines[i];
        let ghost before = files@;
        proof {
            assert(views(lines@)[i as int] == line@);
            assert(all.take(i + 1).drop_last() == all.take(i as int));
            assert(all.take(i + 1).last() == line@);
            lemma_issues_step(all, i as int);
            lemma_written_step(all, i as int);
        }
        let trimmed = chars::trim(line);
        if chars::starts_with(trimmed, "[warn] Code style") || chars::starts_with(
            trimmed,
            "[error]",
        ) {
            issues = true;
        } else {
            let path = if chars::starts_with(trimmed, "[warn] ") {
                proof {
                    reveal_strlit("[warn] ");
                }
                slice_subrange(trimmed, 7, trimmed.len())
            } else {
                trimmed
            };
            assert(path@ == unprefixed(line@));
            if !chars::starts_with(path, "Checking") && !chars::starts_with(path, "All matched")
                && !chars::starts_with(path, "Code style") && is_source_path(path) {
                files.push(path);
                assert(views(files@) == views(before).push(path@));
            } else if chars::contains(line, "modified") || chars::contains(line, "formatted") {
                written = true;
            }
            if chars::contains(trimmed, "All matched files use Prettier") {
                if let Some(word) = chars::first_word(trimmed) {
                    if let Some(count) = chars::parse_usize(word) {
                        checked = count;
                    }
                }
            }
        }
        i += 1;
    }
    assert(all.take(i as int) == all);
    Findings { files, checked, issues, written }
}

proof fn lemma_issues_step(lines: Seq<Seq<char>>, i: int)
    requires
        0 <= i < lines.len(),
    ensures
        issues_found(lines.take(i + 1)) == (issues_found(lines.take(i)) || is_issue_line(lines[i])),
{
    let short = lines.take(i);
    let long = lines.take(i + 1);
    if issues_found(short) {
        let k = choose|k: int| 0 <= k < short.len() && is_issue_line(#[trigger] short[k]);
        assert(is_issue_line(long[k]));
    }
    if is_issue_line(lines[i]) {
        assert(is_issue_line(long[i]));
    }
    if issues_found(long) {
        let k = choose|k: int| 0 <= k < long.len() && is_issue_line(#[trigger] long[k]);
        assert(k < i ==> is_issue_line(short[k]));
    }
}

proof fn lemma_written_step(lines: Seq<Seq<char>>, i: int)
    requires
        0 <= i < lines.len(),
    ensures
        files_written(lines.take(i + 1)) == (files_written(lines.take(i)) || is_write_line(
            lines[i],
        )),
{
    let short = lines.take(i);
    let long = lines.take(i + 1);
    if files_written(short) {
        let k = choose|k: int| 0 <= k < short.len() && is_write_line(#[trigger] short[k]);
        assert(is_write_line(long[k]));
    }
    if is_write_line(lines[i]) {
        assert(is_write_line(long[i]));
    }
    if files_written(long) {
        let k = choose|k: int| 0 <= k < long.len() && is_write_line(#[trigger] long[k]);
        assert(k < i ==> is_write_line(short[k]));
    }
}

/// The report on files that need formatting, of which there are some.
fn list_files(files: &[&[char]], checked: usize) -> (r: String)
    requires
        checked > 0 ==> files.len() <= checked,
    ensures
        r@ == check_report(views(files@), checked as nat),
{
    let ghost all = views(files@);
    let mut r = "Prettier: ".to_owned();
    chars::push_decimal(&mut r, files.len() as u64);
    r.append(" files need formatting\n");
    let ghost heading = r@;
    let n: usize = if files.len() < MAX_PRETTIER_FILES {
        files.len()
    } else {
        MAX_PRETTIER_FILES
    };
    let mut i: usize = 0;
    while i < n
        invariant
            i <= n <= files.len(),
            all == views(files@),
            r@ == heading + numbered(all, i as nat),
        decreases n - i,
    {
        let ghost before = r@;
        chars::push_decimal(&mut r, (i + 1) as u64);
        r.append(". ");
        chars::push_chars(&mut r, files[i]);
        r.append("\n");
        i += 1;
        proof {
            assert(all[i - 1] == files@[i - 1]@);
            assert(r@ == heading + numbered(all, i as nat));
        }
    }
    if files.len() > MAX_PRETTIER_FILES {
        r.append("\n... +");
        chars::push_decimal(&mut r, (files.len() - MAX_PRETTIER_FILES) as u64);
        r.append(" more files\n");
    }
    if checked > 0 {
        r.append("\n");
        chars::push_decimal(&mut r, (checked - files.len()) as u64);
        r.append(" files already formatted\n");
    }
    assert(r@ == check_report(all, checked as nat));
    r
}

/// `s` without the white space on either side.
fn trimmed(s: &str) -> (r: String)
    ensures
        r@ == text::trim(s@),
{
    chars::to_text(chars::trim(chars::to_chars(s).as_slice()))
}

/// The report on `output`, whose findings are given.
fn report(output: &[char], found: &Findings) -> (r: String)
    requires
        found.are_of(output@),
        counts_agree(output@),
    ensures
        r@ == prettier_report(output@),
{
    let files = found.files.as_slice();
    assert(views(files@) == files_to_format(text::lines(output@)));
    if chars::trim(output).len() == 0 {
        return "Error: prettier produced no output".to_owned();
    }
    if files.len() == 0 && !found.issues && chars::contains(
        output,
        "All matched files use Prettier",
    ) {
        return "Prettier: All files formatted correctly".to_owned();
    }
    if files.len() == 0 && found.issues {
        return "Prettier: code style issues found (see raw output for details)".to_owned();
    }
    let result = if found.written {
        let mut r = "Prettier: ".to_owned();
        chars::push_decimal(&mut r, files.len() as u64);
        r.append(" files formatted\n");
        r
    } else if files.len() == 0 {
        "Prettier: All files formatted correctly\n".to_owned()
    } else {
        list_files(files, found.checked)
    };
    trimmed(result.as_str())
}

/// Reduces Prettier's output to the files that need formatting.
///
/// Prettier 2 writes a path on a line of its own; Prettier 3 puts `[warn]` in
/// front of it and adds a line that sums the issues up.
pub fn filter_prettier_output(output: &str) -> (r: String)
    requires
        counts_agree(output@),
    ensures
        r@ == prettier_report(output@),
{
    let whole = chars::to_chars(output);
    let found = find(whole.as_slice());
    report(whole.as_slice(), &found)
}

/// Reduces Prettier's output to the files that need formatting, or returns
/// `None` where the counts in it contradict each other.
pub fn checked_filter_prettier_output(output: &str) -> (r: Option<String>)
    ensures
        r is Some <==> counts_agree(output@),
        r matches Some(s) ==> s@ == prettier_report(output@),
{
    let whole = chars::to_chars(output);
    let found = find(whole.as_slice());
    assert(found.files@.len() == views(found.files@).len());
    if found.files.len() > 0 && found.checked > 0 && found.files.len() > found.checked
        && !found.written {
        return None;
    }
    Some(report(whole.as_slice(), &found))
}

} // verus!
