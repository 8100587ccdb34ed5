//! The output of `playwright install`, without the noise of its downloads.

use vstd::prelude::*;
use crate::chars::{self, views};
use crate::pattern::{
    is_match, regex_is_match, BYTES_PATTERN, DOWNLOAD_PATTERN, PROGRESS_BAR_PATTERN,
};
use crate::text;

verus! {

/// What becomes of a line.
#[derive(Debug, Clone, Copy, PartialEq, Eq, Structural)]
pub enum LineKind {
    /// It is shown.
    Kept,
    /// It is left out and counted.
    Download,
    /// It is left out.
    Noise,
}

/// A character of the lines that only separate others.
pub open spec fn is_separator_char(c: char) -> bool {
    c == '=' || c == '-' || c == '|' || c == ' ' || c == '.'
}

/// A line of nothing but separators.
pub open spec fn is_separator(s: Seq<char>) -> bool {
    forall|i: int| 0 <= i < s.len() ==> is_separator_char(#[trigger] s[i])
}

/// What becomes of a line, where `progress` says that it shows the progress of a
/// download, as a bar or in bytes, and `download` that it announces one.
pub open spec fn kind_of(line: Seq<char>, progress: bool, download: bool) -> LineKind {
    if text::trim(line).len() == 0 || progress {
        LineKind::Noise
    } else if download {
        LineKind::Download
    } else if is_separator(text::trim(line)) {
        LineKind::Noise
    } else {
        LineKind::Kept
    }
}

/// The lines that are shown.
pub open spec fn kept_lines(lines: Seq<Seq<char>>, kinds: Seq<LineKind>) -> Seq<Seq<char>>
    decreases lines.len(),
{
    if lines.len() == 0 {
        seq![]
    } else {
        let rest = kept_lines(lines.drop_last(), kinds);
        if kinds[lines.len() - 1] == LineKind::Kept {
            rest.push(lines.last())
        } else {
            rest
        }
    }
}

/// How many lines are left out and counted.
pub open spec fn download_count(kinds: Seq<LineKind>) -> nat
    decreases kinds.len(),
{
    if kinds.len() == 0 {
        0
    } else {
        download_count(kinds.drop_last()) + if kinds.last() == LineKind::Download {
            1nat
        } else {
            0nat
        }
    }
}

/// The note on the lines that were counted.
pub open spec fn omission_note(n: nat) -> Seq<char> {
    "("@ + text::decimal(n) + " download progress lines omitted)"@
}

/// The lines that are shown, and the note where lines were counted; all of
/// `input` where no line is shown.
pub open spec fn kinds_report(
    input: Seq<char>,
    lines: Seq<Seq<char>>,
    kinds: Seq<LineKind>,
) -> Seq<char> {
    let kept = kept_lines(lines, kinds);
    let omitted = download_count(kinds);
    if kept.len() == 0 {
        input
    } else if omitted > 0 {
        text::join(kept.push(omission_note(omitted)), "\n"@)
    } else {
        text::join(kept, "\n"@)
    }
}

/// What becomes of a line, as the patterns decide it.
pub open spec fn matched_kind(line: Seq<char>) -> LineKind {
    kind_of(
        line,
        regex_is_match(PROGRESS_BAR_PATTERN@, line) || regex_is_match(BYTES_PATTERN@, line),
        regex_is_match(DOWNLOAD_PATTERN@, line),
    )
}

/// The report on the output of an installation.
pub open spec fn install_report(input: Seq<char>) -> Seq<char> {
    let lines = text::lines(text::strip_ansi(input));
    kinds_report(input, lines, lines.map_values(|line: Seq<char>| matched_kind(line)))
}

/// What becomes of a line, given what the patterns say of it.
pub fn classify_line(line: &str, progress: bool, download: bool) -> (r: LineKind)
    ensures
        r == kind_of(line@, progress, download),
{
    let whole = chars::to_chars(line);
    let trimmed = chars::trim(whole.as_slice());
    if trimmed.len() == 0 || progress {
        return LineKind::Noise;
    }
    if download {
        return LineKind::Download;
    }
    let mut i: usize = 0;
    while i < trimmed.len()
        invariant
            i <= trimmed.len(),
            trimmed@ == text::trim(line@),
            trimmed@.len() > 0,
            !progress,
            !download,
            forall|k: int| 0 <= k < i ==> is_separator_char(#[trigger] trimmed@[k]),
        decreases trimmed.len() - i,
    {
        let c = trimmed[i];
        if !(c == '=' || c == '-' || c == '|' || c == ' ' || c == '.') {
            assert(!is_separator_char(trimmed@[i as int]));
            return LineKind::Kept;
        }
        i += 1;
    }
    LineKind::Noise
}

/// The report on `input` as its lines are classified.
fn assemble(input: &str, lines: &[&[char]], kinds: &[LineKind]) -> (r: String)
    requires
        lines.len() == kinds.len(),
    ensures
        r@ == kinds_report(input@, views(lines@), kinds@),
{
    let ghost all = views(lines@);
    let mut kept: Vec<&[char]> = Vec::new();
    let mut omitted: usize = 0;
    let mut i: usize = 0;
    assert(views(kept@) == kept_lines(all.take(0), kinds@));
    while i < lines.len()
        invariant
            i <= lines.len() == kinds.len(),
            all == views(lines@),
            omitted <= i,
            views(kept@) == kept_lines(all.take(i as int), kinds@),
            omitted == download_count(kinds@.take(i as int)),
        decreases lines.len() - i,
    {
        let ghost before = kept@;
        proof {
            assert(all[i as int] == lines@[i as int]@);
            assert(all.take(i + 1).drop_last() == all.take(i as int));
            assert(kinds@.take(i + 1).drop_last() == kinds@.take(i as int));
        }
        match kinds[i] {
            LineKind::Kept => {
                kept.push(lines[i]);
                assert(views(kept@) == views(before).push(lines@[i as int]@));
            },
            LineKind::Download => {
                omitted += 1;
            },
            LineKind::Noise => {},
        }
        i += 1;
    }
    proof {
        assert(all.take(i as int) == all);
        assert(kinds@.take(i as int) == kinds@);
        assert(views(kept@).len() == kept@.len());
    }
    if kept.len() == 0 {
        return input.to_owned();
    }
    if omitted > 0 {
        let mut note = "(".to_owned();
        chars::push_decimal(&mut note, omitted as u64);
        note.append(" download progress lines omitted)");
        let note_chars = chars::to_chars(note.as_str());
        let ghost before = kept@;
        kept.push(note_chars.as_slice());
        assert(views(kept@) == views(before).push(omission_note(omitted as nat)));
        return chars::join(kept.as_slice(), "\n");
    }
    chars::join(kept.as_slice(), "\n")
}

/// The report on `input`, whose lines, without colours, are of the given kinds.
pub fn report_classified(input: &str, kinds: &[LineKind]) -> (r: String)
    requires
        kinds.len() == text::lines(text::strip_ansi(input@)).len(),
    ensures
        r@ == kinds_report(input@, text::lines(text::strip_ansi(input@)), kinds@),
{
    let clean = chars::strip_ansi(chars::to_chars(input).as_slice());
    let lines = chars::lines(clean.as_slice());
    assert(views(lines@).len() == lines@.len());
    assemble(input, lines.as_slice(), kinds)
}

/// Reduces the output of `playwright install` to the lines that call for action.
/// Where that would leave nothing, all of it is returned.
pub fn filter_install(input: &str) -> (r: String)
    ensures
        r@ == install_report(input@),
{
    let clean = chars::strip_ansi(chars::to_chars(input).as_slice());
    let lines = chars::lines(clean.as_slice());
    let ghost all = text::lines(text::strip_ansi(input@));
    let mut kinds: Vec<LineKind> = Vec::new();
    let mut i: usize = 0;
    while i < lines.len()
        invariant
            i <= lines.len(),
            views(lines@) == all,
            kinds@ == all.take(i as int).map_values(|line: Seq<char>| matched_kind(line)),
        decreases lines.len() - i,
    {
        let line = chars::to_text(lines[i]);
        let progress = is_match(PROGRESS_BAR_PATTERN, line.as_str()) || is_match(
            BYTES_PATTERN,
            line.as_str(),
        );
        let download = !progress && is_match(DOWNLOAD_PATTERN, line.as_str());
        kinds.push(classify_line(line.as_str(), progress, download));
        i += 1;
        proof {
            assert(views(lines@)[i - 1] == line@);
            assert(all.take(i as int) == all.take(i - 1).push(line@));
        }
    }
    assert(all.take(i as int) == all);
    assemble(input, lines.as_slice(), kinds.as_slice())
}

} // verus!
