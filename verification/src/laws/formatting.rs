//! What Prettier's output says, and the report on it, said of its lines.

use vstd::prelude::*;
use crate::laws::primitives::{all_space, law_suffix};
use crate::laws::{lemma_file_line, lemma_path_ends_in_letter, lemma_success_line};
use crate::prettier::{
    check_report, counts_agree, files_checked, files_to_format, files_written, is_issue_line,
    is_write_line, issues_found, listed, numbered, prettier_report, source_path,
};
use crate::text;

verus! {

/// Some text with `end` behind it.
pub open spec fn ends_in(s: Seq<char>, end: Seq<char>) -> bool {
    exists|front: Seq<char>| s == #[trigger] (front + end)
}

/// Whatever stands in front, a path with a listed extension is a source path.
pub proof fn law_listed_extensions_make_source_paths(p: Seq<char>)
    ensures
        source_path(p + ".ts"@),
        source_path(p + ".tsx"@),
        source_path(p + ".js"@),
        source_path(p + ".jsx"@),
        source_path(p + ".mjs"@),
        source_path(p + ".cjs"@),
        source_path(p + ".json"@),
        source_path(p + ".md"@),
        source_path(p + ".mdx"@),
        source_path(p + ".yml"@),
        source_path(p + ".yaml"@),
        source_path(p + ".html"@),
        source_path(p + ".vue"@),
        source_path(p + ".svelte"@),
        source_path(p + ".css"@),
        source_path(p + ".scss"@),
        source_path(p + ".less"@),
{
    lemma_suffix_of_sum(p, ".ts"@);
    lemma_suffix_of_sum(p, ".tsx"@);
    lemma_suffix_of_sum(p, ".js"@);
    lemma_suffix_of_sum(p, ".jsx"@);
    lemma_suffix_of_sum(p, ".mjs"@);
    lemma_suffix_of_sum(p, ".cjs"@);
    lemma_suffix_of_sum(p, ".json"@);
    lemma_suffix_of_sum(p, ".md"@);
    lemma_suffix_of_sum(p, ".mdx"@);
    lemma_suffix_of_sum(p, ".yml"@);
    lemma_suffix_of_sum(p, ".yaml"@);
    lemma_suffix_of_sum(p, ".html"@);
    lemma_suffix_of_sum(p, ".vue"@);
    lemma_suffix_of_sum(p, ".svelte"@);
    lemma_suffix_of_sum(p, ".css"@);
    lemma_suffix_of_sum(p, ".scss"@);
    lemma_suffix_of_sum(p, ".less"@);
}

proof fn lemma_suffix_of_sum(p: Seq<char>, end: Seq<char>)
    ensures
        text::has_suffix(p + end, end),
{
    law_suffix(p + end, end);
}

/// Nothing else is a source path.
pub proof fn law_source_paths(s: Seq<char>)
    ensures
        source_path(s) <==> {
            ||| ends_in(s, ".ts"@)
            ||| ends_in(s, ".tsx"@)
            ||| ends_in(s, ".js"@)
            ||| ends_in(s, ".jsx"@)
            ||| ends_in(s, ".mjs"@)
            ||| ends_in(s, ".cjs"@)
            ||| ends_in(s, ".json"@)
            ||| ends_in(s, ".md"@)
            ||| ends_in(s, ".mdx"@)
            ||| ends_in(s, ".yml"@)
            ||| ends_in(s, ".yaml"@)
            ||| ends_in(s, ".html"@)
            ||| ends_in(s, ".vue"@)
            ||| ends_in(s, ".svelte"@)
            ||| ends_in(s, ".css"@)
            ||| ends_in(s, ".scss"@)
            ||| ends_in(s, ".less"@)
        },
{
    law_suffix(s, ".ts"@);
    law_suffix(s, ".tsx"@);
    law_suffix(s, ".js"@);
    law_suffix(s, ".jsx"@);
    law_suffix(s, ".mjs"@);
    law_suffix(s, ".cjs"@);
    law_suffix(s, ".json"@);
    law_suffix(s, ".md"@);
    law_suffix(s, ".mdx"@);
    law_suffix(s, ".yml"@);
    law_suffix(s, ".yaml"@);
    law_suffix(s, ".html"@);
    law_suffix(s, ".vue"@);
    law_suffix(s, ".svelte"@);
    law_suffix(s, ".css"@);
    law_suffix(s, ".scss"@);
    law_suffix(s, ".less"@);
}

/// A path that a line may name: a source path that is not the beginning of a
/// message.
pub open spec fn can_be_named(p: Seq<char>) -> bool {
    &&& source_path(p)
    &&& !text::has_prefix(p, "Checking"@)
    &&& !text::has_prefix(p, "All matched"@)
    &&& !text::has_prefix(p, "Code style"@)
}

/// The files are those of the lines, in order, a file as often as it is named.
pub proof fn law_files(a: Seq<Seq<char>>, b: Seq<Seq<char>>)
    ensures
        files_to_format(seq![]) == Seq::<Seq<char>>::empty(),
        files_to_format(a + b) == files_to_format(a) + files_to_format(b),
    decreases b.len(),
{
    if b.len() == 0 {
        assert(a + b == a);
        assert(files_to_format(a) + files_to_format(b) == files_to_format(a));
    } else {
        law_files(a, b.drop_last());
        assert((a + b).drop_last() == a + b.drop_last());
        assert((a + b).last() == b.last());
        assert(files_to_format(a + b) == files_to_format(a) + files_to_format(b));
    }
}

proof fn lemma_file_of_line(line: Seq<char>)
    ensures
        files_to_format(seq![line]) == if crate::prettier::names_file(line) {
            seq![crate::prettier::unprefixed(line)]
        } else {
            seq![]
        },
{
    reveal_with_fuel(files_to_format, 2);
    assert(seq![line].drop_last() == Seq::<Seq<char>>::empty());
    assert(seq![line].last() == line);
}

/// A line that warns of a path names it, and it alone.
pub proof fn law_warned_file(line: Seq<char>, p: Seq<char>)
    requires
        text::trim(line) == "[warn] "@ + p,
    ensures
        can_be_named(p) ==> files_to_format(seq![line]) == seq![p],
        !can_be_named(p) ==> files_to_format(seq![line]) == Seq::<Seq<char>>::empty(),
{
    lemma_file_of_line(line);
    lemma_warning(p);
}

proof fn lemma_warning(p: Seq<char>)
    ensures
        text::has_prefix("[warn] "@ + p, "[warn] "@),
        ("[warn] "@ + p).skip(7) == p,
        text::has_prefix("[warn] "@ + p, "[warn] Code style"@) == text::has_prefix(
            p,
            "Code style"@,
        ),
        !text::has_prefix("[warn] "@ + p, "[error]"@),
{
    reveal_strlit("[warn] ");
    reveal_strlit("[error]");
    reveal_strlit("Code style");
    reveal_strlit("[warn] Code style");
    let t = "[warn] "@ + p;
    assert(t.take(7) == "[warn] "@);
    assert("[warn] Code style"@ == "[warn] "@ + "Code style"@);
    if text::has_prefix(p, "Code style"@) {
        assert(t.take(17) == "[warn] "@ + p.take(10));
    }
    if text::has_prefix(t, "[warn] Code style"@) {
        assert(p.take(10) == t.take(17).skip(7));
        assert("[warn] Code style"@.skip(7) == "Code style"@);
    }
    if text::has_prefix(t, "[error]"@) {
        assert(t.take(7)[1] == 'e');
        assert(t[1] == 'w');
    }
}

/// A line that does not warn names the path that it is; a line about an error names
/// none.
pub proof fn law_bare_file(line: Seq<char>)
    requires
        !text::has_prefix(text::trim(line), "[warn] "@),
    ensures
        ({
            let t = text::trim(line);
            if can_be_named(t) && !text::has_prefix(t, "[error]"@) {
                files_to_format(seq![line]) == seq![t]
            } else {
                files_to_format(seq![line]) == Seq::<Seq<char>>::empty()
            }
        }),
{
    lemma_file_of_line(line);
    let t = text::trim(line);
    reveal_strlit("[warn] ");
    reveal_strlit("[warn] Code style");
    if text::has_prefix(t, "[warn] Code style"@) {
        assert(t.take(7) == t.take(17).take(7));
        assert("[warn] Code style"@.take(7) == "[warn] "@);
    }
}

/// There are issues if some line says so, and not otherwise.
pub proof fn law_issues(a: Seq<Seq<char>>, b: Seq<Seq<char>>, line: Seq<char>)
    ensures
        !issues_found(seq![]),
        issues_found(a + b) <==> issues_found(a) || issues_found(b),
        issues_found(seq![line]) <==> text::has_prefix(
            text::trim(line),
            "[warn] Code style"@,
        ) || text::has_prefix(text::trim(line), "[error]"@),
{
    if issues_found(a) {
        let i = choose|i: int| 0 <= i < a.len() && is_issue_line(#[trigger] a[i]);
        assert((a + b)[i] == a[i]);
    }
    if issues_found(b) {
        let i = choose|i: int| 0 <= i < b.len() && is_issue_line(#[trigger] b[i]);
        assert((a + b)[a.len() as int + i] == b[i]);
    }
    if issues_found(a + b) {
        let i = choose|i: int| 0 <= i < (a + b).len() && is_issue_line(#[trigger] (a + b)[i]);
        if i < a.len() {
            assert(is_issue_line(a[i]));
        } else {
            assert(is_issue_line(b[i - a.len()]));
        }
    }
    assert(seq![line][0] == line);
}

/// Files were written if some line says so that names no file and speaks of no
/// issue.
pub proof fn law_written(a: Seq<Seq<char>>, b: Seq<Seq<char>>, line: Seq<char>)
    ensures
        !files_written(seq![]),
        files_written(a + b) <==> files_written(a) || files_written(b),
        files_written(seq![line]) <==> files_to_format(seq![line]).len() == 0 && !issues_found(
            seq![line],
        ) && (text::contains(line, "modified"@) || text::contains(line, "formatted"@)),
{
    lemma_file_of_line(line);
    assert(seq![line][0] == line);
    if files_written(a) {
        let i = choose|i: int| 0 <= i < a.len() && is_write_line(#[trigger] a[i]);
        assert((a + b)[i] == a[i]);
    }
    if files_written(b) {
        let i = choose|i: int| 0 <= i < b.len() && is_write_line(#[trigger] b[i]);
        assert((a + b)[a.len() as int + i] == b[i]);
    }
    if files_written(a + b) {
        let i = choose|i: int| 0 <= i < (a + b).len() && is_write_line(#[trigger] (a + b)[i]);
        if i < a.len() {
            assert(is_write_line(a[i]));
        } else {
            assert(is_write_line(b[i - a.len()]));
        }
    }
}

/// The number that a line gives of files in order replaces those in front of it; a
/// line that gives none changes nothing.
pub proof fn law_checked(lines: Seq<Seq<char>>, line: Seq<char>)
    ensures
        files_checked(seq![]) == 0,
        ({
            let t = text::trim(line);
            let counts = !issues_found(seq![line]) && text::contains(
                t,
                "All matched files use Prettier"@,
            );
            let count = match text::first_word(t) {
                Some(word) => text::parse_usize(word),
                None => None,
            };
            &&& counts ==> (count matches Some(n) ==> files_checked(lines.push(line)) == n)
            &&& !counts || count is None ==> files_checked(lines.push(line)) == files_checked(lines)
        }),
{
    law_issues(seq![], seq![], line);
    assert(lines.push(line).drop_last() == lines);
}

/// Output of white space alone is an error. Issues without a file are reported as
/// such. A check without findings is a success, whatever the number of files, unless
/// files were written: those are counted.
pub proof fn law_messages(output: Seq<char>)
    ensures
        ({
            let lines = text::lines(output);
            let n = files_to_format(lines).len();
            let in_order = text::contains(output, "All matched files use Prettier"@);
            &&& all_space(output) ==> prettier_report(output)
                == "Error: prettier produced no output"@
            &&& !all_space(output) && n == 0 && issues_found(lines) ==> prettier_report(
                output,
            ) == "Prettier: code style issues found (see raw output for details)"@
            &&& !all_space(output) && n == 0 && !issues_found(lines) && (in_order
                || !files_written(lines)) ==> prettier_report(output)
                == "Prettier: All files formatted correctly"@
            &&& !all_space(output) && files_written(lines) && (n > 0 || (!issues_found(
                lines,
            ) && !in_order)) ==> prettier_report(output) == "Prettier: "@ + text::decimal(n)
                + " files formatted"@
        }),
{
    let n = files_to_format(text::lines(output)).len();
    lemma_success_line();
    if all_space(output) {
        text::lemma_space_is_trimmed(output);
    } else if text::trim(output).len() == 0 {
        text::lemma_trimmed_to_nothing(output);
    }
    reveal_strlit("Prettier: ");
    reveal_strlit(" files formatted\n");
    reveal_strlit(" files formatted");
    let shown = "Prettier: "@ + text::decimal(n) + " files formatted"@;
    assert("Prettier: "@ + text::decimal(n) + " files formatted\n"@ == shown.push('\n'));
    assert(shown[0] == 'P');
    assert(shown.last() == 'd');
    lemma_line_end_is_trimmed(shown);
}

proof fn lemma_line_end_is_trimmed(s: Seq<char>)
    requires
        s.len() > 0,
        !text::is_space(s[0]),
        !text::is_space(s.last()),
    ensures
        text::trim(s.push('\n')) == s,
{
    let whole = s.push('\n');
    assert(text::trim_start(whole) == whole);
    assert(whole.drop_last() == s);
    assert(text::trim_end(s) == s);
}

/// A file in the list, with its number, on a line of its own.
pub open spec fn entry(files: Seq<Seq<char>>, i: int) -> Seq<char> {
    "\n"@ + text::decimal((i + 1) as nat) + ". "@ + files[i]
}

/// The entries of the first `n` files.
pub open spec fn entries(files: Seq<Seq<char>>, n: nat) -> Seq<char> {
    text::concat(Seq::new(n, |i: int| entry(files, i)))
}

proof fn lemma_entries(files: Seq<Seq<char>>, n: nat)
    requires
        n <= files.len(),
    ensures
        "\n"@ + numbered(files, n) == entries(files, n) + "\n"@,
    decreases n,
{
    if n == 0 {
        assert(entries(files, n) == Seq::<char>::empty());
        assert("\n"@ + Seq::<char>::empty() == Seq::<char>::empty() + "\n"@);
    } else {
        let m = (n - 1) as nat;
        lemma_entries(files, m);
        let all = Seq::new(n, |i: int| entry(files, i));
        assert(all.drop_last() == Seq::new(m, |i: int| entry(files, i)));
        assert(all.last() == entry(files, n - 1));
        assert(entries(files, n) == entries(files, m) + entry(files, n - 1));
        let number = text::decimal(n);
        let file = files[n - 1];
        assert("\n"@ + numbered(files, n) == "\n"@ + numbered(files, m) + number + ". "@ + file
            + "\n"@);
        assert(entries(files, m) + "\n"@ + number + ". "@ + file == entries(files, m) + ("\n"@
            + number + ". "@ + file));
    }
}

/// A check lists the first ten of the files that need formatting, each with its
/// number, says how many more there are, and how many were in order where the output
/// gives their number.
pub proof fn law_check(output: Seq<char>)
    requires
        files_to_format(text::lines(output)).len() > 0,
        !files_written(text::lines(output)),
        counts_agree(output),
    ensures
        ({
            let files = files_to_format(text::lines(output));
            let checked = files_checked(text::lines(output));
            let head = "Prettier: "@ + text::decimal(files.len()) + " files need formatting"@;
            let list = entries(
                files,
                if files.len() < 10 {
                    files.len()
                } else {
                    10
                },
            );
            let more = if files.len() > 10 {
                "\n\n... +"@ + text::decimal((files.len() - 10) as nat) + " more files"@
            } else {
                seq![]
            };
            let in_order = if checked > 0 {
                "\n\n"@ + text::decimal((checked - files.len()) as nat)
                    + " files already formatted"@
            } else {
                seq![]
            };
            prettier_report(output) == head + list + more + in_order
        }),
{
    let lines = text::lines(output);
    let files = files_to_format(lines);
    let checked = files_checked(lines) as nat;
    let k = lemma_file_line(lines, files.len() - 1);
    lemma_path_ends_in_letter(files.last());
    lemma_named_line(output, k);
    lemma_check_text(files, checked);
}

proof fn lemma_named_line(output: Seq<char>, k: int)
    requires
        0 <= k < text::lines(output).len(),
        crate::prettier::names_file(text::lines(output)[k]),
    ensures
        text::trim(output).len() > 0,
{
    let line = text::lines(output)[k];
    lemma_path_ends_in_letter(crate::prettier::unprefixed(line));
    reveal_strlit("[warn] ");
    crate::laws::lemma_output_is_not_blank(output, k);
}

/// The parts of the report on a check, as lines that end and as lines that begin.
proof fn lemma_check_text(files: Seq<Seq<char>>, checked: nat)
    requires
        files.len() > 0,
        files.last().len() > 0,
        !text::is_space(files.last().last()),
    ensures
        ({
            let head = "Prettier: "@ + text::decimal(files.len()) + " files need formatting"@;
            let list = entries(files, listed(files));
            let more = if files.len() > 10 {
                "\n\n... +"@ + text::decimal((files.len() - 10) as nat) + " more files"@
            } else {
                seq![]
            };
            let in_order = if checked > 0 {
                "\n\n"@ + text::decimal((checked - files.len()) as nat)
                    + " files already formatted"@
            } else {
                seq![]
            };
            text::trim(check_report(files, checked)) == head + list + more + in_order
        }),
{
    let n = text::decimal(files.len());
    let head = "Prettier: "@ + n + " files need formatting"@;
    let list = entries(files, listed(files));
    let lf = "\n"@;
    let nothing = Seq::<char>::empty();
    let more = if files.len() > 10 {
        "\n\n... +"@ + text::decimal((files.len() - 10) as nat) + " more files"@
    } else {
        nothing
    };
    let more_line = if files.len() > 10 {
        "\n... +"@ + text::decimal((files.len() - 10) as nat) + " more files\n"@
    } else {
        nothing
    };
    let in_order = if checked > 0 {
        "\n\n"@ + text::decimal((checked - files.len()) as nat) + " files already formatted"@
    } else {
        nothing
    };
    let in_order_line = if checked > 0 {
        "\n"@ + text::decimal((checked - files.len()) as nat) + " files already formatted\n"@
    } else {
        nothing
    };
    let shown = head + list + more + in_order;
    lemma_literals();
    lemma_entries(files, listed(files));
    assert("Prettier: "@ + n + " files need formatting\n"@ == head + lf);
    assert(lf + more_line == more + lf) by {
        if files.len() > 10 {
            lemma_line_around(
                "\n... +"@,
                "\n\n... +"@,
                text::decimal((files.len() - 10) as nat),
                " more files"@,
                " more files\n"@,
            );
        } else {
            assert(lf + nothing == nothing + lf);
        }
    }
    assert(lf + in_order_line == in_order + lf) by {
        if checked > 0 {
            lemma_line_around(
                "\n"@,
                "\n\n"@,
                text::decimal((checked - files.len()) as nat),
                " files already formatted"@,
                " files already formatted\n"@,
            );
        } else {
            assert(lf + nothing == nothing + lf);
        }
    }
    let whole = check_report(files, checked);
    let numbers = numbered(files, listed(files));
    assert(whole == head + lf + numbers + more_line + in_order_line);
    text::lemma_add_assoc(head, lf, numbers);
    text::lemma_add_assoc(head, list, lf);
    assert(head + lf + numbers == head + list + lf);
    text::lemma_add_assoc(head + list, lf, more_line);
    text::lemma_add_assoc(head + list, more, lf);
    text::lemma_add_assoc(head + list + more, lf, in_order_line);
    text::lemma_add_assoc(head + list + more, in_order, lf);
    assert(whole == shown + lf);
    assert(shown + lf == shown.push('\n'));
    assert(shown[0] == 'P');
    lemma_entries_end(files, listed(files));
    assert(!text::is_space(shown.last())) by {
        if checked > 0 {
            assert(in_order.last() == 'd');
            assert(shown.last() == 'd');
        } else if files.len() > 10 {
            assert(more.last() == 's');
            assert(shown.last() == 's');
        } else {
            assert(shown == head + list);
            assert(shown.last() == list.last());
            assert(files[listed(files) - 1] == files.last());
        }
    }
    lemma_line_end_is_trimmed(shown);
}

proof fn lemma_line_around(
    front: Seq<char>,
    below: Seq<char>,
    number: Seq<char>,
    end: Seq<char>,
    line_end: Seq<char>,
)
    requires
        "\n"@ + front == below,
        end + "\n"@ == line_end,
    ensures
        "\n"@ + (front + number + line_end) == below + number + end + "\n"@,
{
    assert("\n"@ + (front + number + (end + "\n"@)) == ("\n"@ + front) + number + end + "\n"@);
}

proof fn lemma_literals()
    ensures
        "\n"@ == seq!['\n'],
        "\n"@ + "\n... +"@ == "\n\n... +"@,
        "\n"@ + "\n"@ == "\n\n"@,
        " more files"@ + "\n"@ == " more files\n"@,
        " files already formatted"@ + "\n"@ == " files already formatted\n"@,
        " files need formatting"@ + "\n"@ == " files need formatting\n"@,
        "Prettier: "@.len() == 10,
        "Prettier: "@[0] == 'P',
        " more files"@.len() > 0,
        " more files"@.last() == 's',
        " files already formatted"@.len() > 0,
        " files already formatted"@.last() == 'd',
{
    reveal_strlit("\n");
    reveal_strlit("\n... +");
    reveal_strlit("\n\n... +");
    reveal_strlit("\n\n");
    reveal_strlit(" more files");
    reveal_strlit(" more files\n");
    reveal_strlit(" files already formatted");
    reveal_strlit(" files already formatted\n");
    reveal_strlit(" files need formatting");
    reveal_strlit(" files need formatting\n");
    reveal_strlit("Prettier: ");
}

proof fn lemma_entries_end(files: Seq<Seq<char>>, n: nat)
    requires
        0 < n <= files.len(),
    ensures
        files[n - 1].len() > 0 ==> entries(files, n).len() > 0 && entries(files, n).last()
            == files[n - 1].last(),
{
    let all = Seq::new(n, |i: int| entry(files, i));
    assert(all.last() == entry(files, n - 1));
    assert(entries(files, n) == text::concat(all.drop_last()) + entry(files, n - 1));
}

/// The numbers disagree where a check gives a number of files in order that is
/// smaller than that of the files that need formatting, and nowhere else.
pub proof fn law_counts_disagree(output: Seq<char>)
    ensures
        !counts_agree(output) <==> !files_written(text::lines(output)) && 0 < files_checked(
            text::lines(output),
        ) < files_to_format(text::lines(output)).len(),
{
}

} // verus!
