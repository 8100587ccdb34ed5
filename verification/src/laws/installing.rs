//! The report on an installation, said of its lines.

use vstd::prelude::*;
use crate::install::{
    download_count, install_report, kept_lines, kind_of, kinds_report, matched_kind, LineKind,
};
use crate::laws::primitives::all_space;
use crate::pattern::regex_is_match;
use crate::text;

verus! {

/// A line that is blank, that shows progress, or that only separates others is
/// noise; one that announces a download is counted; all others are kept.
pub proof fn law_kinds_of_lines(line: Seq<char>, progress: bool, download: bool)
    ensures
        all_space(line) || progress ==> kind_of(line, progress, download) == LineKind::Noise,
        !all_space(line) && !progress && download ==> kind_of(line, progress, download)
            == LineKind::Download,
        !all_space(line) && !progress && !download && (forall|i: int|
            0 <= i < text::trim(line).len() ==> (#[trigger] text::trim(line)[i] == '='
                || text::trim(line)[i] == '-' || text::trim(line)[i] == '|' || text::trim(line)[i]
                == ' ' || text::trim(line)[i] == '.')) ==> kind_of(line, progress, download)
            == LineKind::Noise,
        !all_space(line) && !progress && !download && (exists|i: int|
            0 <= i < text::trim(line).len() && #[trigger] text::trim(line)[i] != '='
                && text::trim(line)[i] != '-' && text::trim(line)[i] != '|' && text::trim(line)[i]
                != ' ' && text::trim(line)[i] != '.') ==> kind_of(line, progress, download)
            == LineKind::Kept,
{
    if all_space(line) {
        text::lemma_space_is_trimmed(line);
    } else if text::trim(line).len() == 0 {
        text::lemma_trimmed_to_nothing(line);
    }
}

/// A line shows progress as a bar with a percentage, or as bytes out of others, and
/// announces a download by the word and a size.
pub proof fn law_patterns_of_lines(line: Seq<char>)
    ensures
        matched_kind(line) == kind_of(
            line,
            regex_is_match(r"^\s*\|[^|]*\|\s*\d+%"@, line) || regex_is_match(
                r"^\s*\d+(\.\d+)?\s*[KMG]i?B\s*/"@,
                line,
            ),
            regex_is_match(r"^\s*Downloading[^\n]*\d+\s*(bytes|[KMG]?i?B)"@, line),
        ),
{
}

/// The kept lines are those of that kind, in order, and no others.
pub proof fn law_kept_lines(
    a: Seq<Seq<char>>,
    a_kinds: Seq<LineKind>,
    b: Seq<Seq<char>>,
    b_kinds: Seq<LineKind>,
    line: Seq<char>,
    kind: LineKind,
)
    requires
        a.len() == a_kinds.len(),
        b.len() == b_kinds.len(),
    ensures
        kept_lines(seq![], seq![]) == Seq::<Seq<char>>::empty(),
        kept_lines(a + b, a_kinds + b_kinds) == kept_lines(a, a_kinds) + kept_lines(b, b_kinds),
        kept_lines(seq![line], seq![kind]) == if kind == LineKind::Kept {
            seq![line]
        } else {
            seq![]
        },
    decreases b.len(),
{
    reveal_with_fuel(kept_lines, 2);
    assert(seq![line].drop_last() == Seq::<Seq<char>>::empty());
    assert(seq![kind][0] == kind);
    assert(seq![line].last() == line);
    if b.len() == 0 {
        assert(a + b == a);
        assert(a_kinds + b_kinds == a_kinds);
        assert(kept_lines(a, a_kinds) + kept_lines(b, b_kinds) == kept_lines(a, a_kinds));
    } else {
        let short = b.drop_last();
        let short_kinds = b_kinds.drop_last();
        law_kept_lines(a, a_kinds, short, short_kinds, line, kind);
        assert((a + b).drop_last() == a + short);
        lemma_further_kinds(a + short, a_kinds + short_kinds, a_kinds + b_kinds);
        lemma_further_kinds(short, short_kinds, b_kinds);
        assert((a + b).last() == b.last());
        assert((a_kinds + b_kinds)[(a + b).len() - 1] == b_kinds[b.len() - 1]);
        assert(kept_lines(a + b, a_kinds + b_kinds) == kept_lines(a, a_kinds) + kept_lines(
            b,
            b_kinds,
        ));
    }
}

/// Kinds behind those of the lines change nothing.
proof fn lemma_further_kinds(lines: Seq<Seq<char>>, kinds: Seq<LineKind>, more: Seq<LineKind>)
    requires
        lines.len() <= kinds.len(),
        lines.len() <= more.len(),
        forall|i: int| 0 <= i < lines.len() ==> kinds[i] == #[trigger] more[i],
    ensures
        kept_lines(lines, kinds) == kept_lines(lines, more),
    decreases lines.len(),
{
    if lines.len() > 0 {
        lemma_further_kinds(lines.drop_last(), kinds, more);
    }
}

/// Each line that announces a download counts once.
pub proof fn law_downloads(a: Seq<LineKind>, b: Seq<LineKind>, kind: LineKind)
    ensures
        download_count(seq![]) == 0,
        download_count(a + b) == download_count(a) + download_count(b),
        download_count(seq![kind]) == if kind == LineKind::Download {
            1nat
        } else {
            0nat
        },
    decreases b.len(),
{
    reveal_with_fuel(download_count, 2);
    assert(seq![kind].drop_last() == Seq::<LineKind>::empty());
    assert(seq![kind].last() == kind);
    if b.len() == 0 {
        assert(a + b == a);
    } else {
        law_downloads(a, b.drop_last(), kind);
        assert((a + b).drop_last() == a + b.drop_last());
        assert((a + b).last() == b.last());
    }
}

/// The kept lines are shown one below the other, with a note on the downloads behind
/// them where there were some. Without a kept line the input is shown as it is.
pub proof fn law_shown_lines(input: Seq<char>, lines: Seq<Seq<char>>, kinds: Seq<LineKind>)
    ensures
        ({
            let kept = kept_lines(lines, kinds);
            let n = download_count(kinds);
            let shown = kinds_report(input, lines, kinds);
            &&& kept.len() == 0 ==> shown == input
            &&& kept.len() > 0 && n == 0 ==> shown == text::join(kept, "\n"@)
            &&& kept.len() > 0 && n > 0 ==> shown == text::join(kept, "\n"@) + "\n("@
                + text::decimal(n) + " download progress lines omitted)"@
        }),
{
    let kept = kept_lines(lines, kinds);
    let n = download_count(kinds);
    if kept.len() > 0 && n > 0 {
        let note = "("@ + text::decimal(n) + " download progress lines omitted)"@;
        assert(kept.push(note).drop_last() == kept);
        assert(kept.push(note).last() == note);
        reveal_strlit("\n");
        reveal_strlit("(");
        reveal_strlit("\n(");
        assert("\n"@ + "("@ == "\n("@);
        let front = text::join(kept, "\n"@);
        assert(front + "\n"@ + note == front + ("\n"@ + "("@) + text::decimal(n)
            + " download progress lines omitted)"@);
    }
}

/// The lines are those of the input without its control sequences, each with the
/// kind that the patterns give it.
pub proof fn law_installation(input: Seq<char>, kinds: Seq<LineKind>)
    requires
        kinds.len() == text::lines(text::strip_ansi(input)).len(),
        forall|i: int|
            0 <= i < kinds.len() ==> #[trigger] kinds[i] == matched_kind(
                text::lines(text::strip_ansi(input))[i],
            ),
    ensures
        install_report(input) == kinds_report(
            input,
            text::lines(text::strip_ansi(input)),
            kinds,
        ),
{
    let lines = text::lines(text::strip_ansi(input));
    assert(lines.map_values(|line: Seq<char>| matched_kind(line)) == kinds);
}

} // verus!
