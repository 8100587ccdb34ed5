//! What is shown of stacks and snippets, said of their lines.

use vstd::prelude::*;
use crate::excerpt::{
    has_user_frame, is_user_frame, kept_frames, marked_line, trimmed_snippet, trimmed_stack,
};
use crate::text;

verus! {

/// The line starts, behind white space, with the word that a frame starts with.
pub open spec fn names_frame(line: Seq<char>) -> bool {
    text::has_prefix(text::trim_start(line), "at "@)
}

/// The line is a frame outside of the dependencies.
pub open spec fn names_user_frame(line: Seq<char>) -> bool {
    names_frame(line) && !text::contains(line, "node_modules/"@)
}

/// The line is a frame of the user's own code, or one that comes before all of
/// those.
pub open spec fn is_worth_showing(lines: Seq<Seq<char>>, k: int) -> bool {
    &&& names_frame(lines[k])
    &&& names_user_frame(lines[k]) || forall|j: int|
        0 <= j < k ==> !names_user_frame(#[trigger] lines[j])
}

/// The lines at the places `at`.
pub open spec fn lines_at(lines: Seq<Seq<char>>, at: Seq<int>) -> Seq<Seq<char>> {
    at.map_values(|k: int| lines[k])
}

/// The places are those of lines, from the first to the last.
pub open spec fn in_order(lines: Seq<Seq<char>>, at: Seq<int>) -> bool {
    &&& forall|j: int| 0 <= j < at.len() ==> 0 <= #[trigger] at[j] < lines.len()
    &&& forall|i: int, j: int| 0 <= i < j < at.len() ==> #[trigger] at[i] < #[trigger] at[j]
}

/// What is shown of a stack is lines of it that are worth showing, in order, and at
/// most five. A line that is worth showing is left out only behind five that are
/// shown: those that are not worth showing take up no room.
pub proof fn law_stack(stack: Seq<char>) -> (at: Seq<int>)
    ensures
        trimmed_stack(stack) == text::join(lines_at(text::lines(stack), at), "\n"@),
        in_order(text::lines(stack), at),
        at.len() <= 5,
        forall|j: int| 0 <= j < at.len() ==> is_worth_showing(text::lines(stack), #[trigger] at[j]),
        forall|k: int|
            0 <= k < text::lines(stack).len() && #[trigger] is_worth_showing(text::lines(stack), k)
                ==> at.contains(k) || (at.len() == 5 && at[4] < k),
{
    let lines = text::lines(stack);
    let all = lemma_kept_places(lines);
    if all.len() <= 5 {
        all
    } else {
        let at = all.take(5);
        assert(lines_at(lines, at) == kept_frames(lines).take(5));
        assert forall|k: int| 0 <= k < lines.len() && #[trigger] is_worth_showing(
            lines,
            k,
        ) implies at.contains(k) || (at.len() == 5 && at[4] < k) by {
            let j = choose|j: int| 0 <= j < all.len() && all[j] == k;
            if j < 5 {
                assert(at[j] == k);
            } else {
                assert(all[4] < all[j]);
            }
        }
        at
    }
}

/// Where the frames that are kept stand.
proof fn lemma_kept_places(lines: Seq<Seq<char>>) -> (at: Seq<int>)
    ensures
        lines_at(lines, at) == kept_frames(lines),
        in_order(lines, at),
        forall|j: int| 0 <= j < at.len() ==> is_worth_showing(lines, #[trigger] at[j]),
        forall|k: int|
            0 <= k < lines.len() && #[trigger] is_worth_showing(lines, k) ==> at.contains(k),
    decreases lines.len(),
{
    if lines.len() == 0 {
        let at = Seq::<int>::empty();
        assert(lines_at(lines, at) == kept_frames(lines));
        at
    } else {
        let short = lines.drop_last();
        let n = lines.len() - 1;
        let before = lemma_kept_places(short);
        assert forall|k: int| 0 <= k < n implies #[trigger] is_worth_showing(lines, k)
            == is_worth_showing(short, k) by {
            lemma_worth_showing_prefix(lines, k);
        }
        lemma_worth_showing_last(lines);
        let at = if is_worth_showing(lines, n) {
            before.push(n)
        } else {
            before
        };
        assert forall|j: int| 0 <= j < before.len() implies lines[#[trigger] before[j]]
            == short[before[j]] by {}
        assert(lines_at(lines, at) == kept_frames(lines)) by {
            assert(lines_at(lines, before) == lines_at(short, before));
            if is_worth_showing(lines, n) {
                assert(lines_at(lines, at) == lines_at(lines, before).push(lines[n]));
            }
        }
        assert forall|k: int| 0 <= k < lines.len() && #[trigger] is_worth_showing(
            lines,
            k,
        ) implies at.contains(k) by {
            if k < n {
                assert(is_worth_showing(short, k));
                let j = choose|j: int| 0 <= j < before.len() && before[j] == k;
                assert(at[j] == k);
            } else {
                assert(at[before.len() as int] == k);
            }
        }
        at
    }
}

proof fn lemma_worth_showing_prefix(lines: Seq<Seq<char>>, k: int)
    requires
        0 <= k < lines.len() - 1,
    ensures
        is_worth_showing(lines, k) == is_worth_showing(lines.drop_last(), k),
{
    let short = lines.drop_last();
    assert forall|j: int| 0 <= j <= k implies #[trigger] short[j] == lines[j] by {}
    if is_worth_showing(lines, k) && !names_user_frame(lines[k]) {
        assert forall|j: int| 0 <= j < k implies !names_user_frame(#[trigger] short[j]) by {
            assert(!names_user_frame(lines[j]));
        }
    }
    if is_worth_showing(short, k) && !names_user_frame(lines[k]) {
        assert forall|j: int| 0 <= j < k implies !names_user_frame(#[trigger] lines[j]) by {
            assert(!names_user_frame(short[j]));
        }
    }
}

proof fn lemma_worth_showing_last(lines: Seq<Seq<char>>)
    requires
        lines.len() > 0,
    ensures
        kept_frames(lines) == if is_worth_showing(lines, lines.len() - 1) {
            kept_frames(lines.drop_last()).push(lines.last())
        } else {
            kept_frames(lines.drop_last())
        },
{
    let short = lines.drop_last();
    let n = lines.len() - 1;
    if has_user_frame(short) {
        let j = choose|j: int| 0 <= j < short.len() && is_user_frame(#[trigger] short[j]);
        assert(names_user_frame(lines[j]));
    } else {
        assert forall|j: int| 0 <= j < n implies !names_user_frame(#[trigger] lines[j]) by {
            assert(!is_user_frame(short[j]));
        }
    }
}

/// The line starts, behind white space, with the mark.
pub open spec fn bears_mark(line: Seq<char>) -> bool {
    text::has_prefix(text::trim_start(line), ">"@)
}

/// What is shown of a snippet is the lines up to two away from the first one with
/// the mark, all of them, and no others.
pub proof fn law_marked_snippet(snippet: Seq<char>, m: int) -> (part: (int, int))
    requires
        0 <= m < text::lines(snippet).len(),
        bears_mark(text::lines(snippet)[m]),
        forall|k: int| 0 <= k < m ==> !bears_mark(#[trigger] text::lines(snippet)[k]),
    ensures
        0 <= part.0 <= part.1 <= text::lines(snippet).len(),
        forall|k: int|
            0 <= k < text::lines(snippet).len() ==> (part.0 <= k < part.1 <==> -2 <= #[trigger] (k
                - m) <= 2),
        trimmed_snippet(snippet) == text::join(
            text::lines(snippet).subrange(part.0, part.1),
            "\n"@,
        ),
{
    let lines = text::lines(snippet);
    lemma_first_mark(lines, m);
    let start = if m < 2 {
        0
    } else {
        m - 2
    };
    let end = if m + 3 < lines.len() {
        m + 3
    } else {
        lines.len() as int
    };
    (start, end)
}

/// Without a mark, the first five lines are shown, or all where there are fewer.
pub proof fn law_unmarked_snippet(snippet: Seq<char>)
    requires
        forall|k: int|
            0 <= k < text::lines(snippet).len() ==> !bears_mark(
                #[trigger] text::lines(snippet)[k],
            ),
    ensures
        text::lines(snippet).len() <= 5 ==> trimmed_snippet(snippet) == text::join(
            text::lines(snippet),
            "\n"@,
        ),
        text::lines(snippet).len() > 5 ==> trimmed_snippet(snippet) == text::join(
            text::lines(snippet).take(5),
            "\n"@,
        ),
{
    lemma_no_mark(text::lines(snippet));
}

proof fn lemma_first_mark(lines: Seq<Seq<char>>, m: int)
    requires
        0 <= m < lines.len(),
        bears_mark(lines[m]),
        forall|k: int| 0 <= k < m ==> !bears_mark(#[trigger] lines[k]),
    ensures
        marked_line(lines) == m,
    decreases lines.len(),
{
    if m > 0 {
        let rest = lines.skip(1);
        assert(!bears_mark(lines[0]));
        assert(rest[m - 1] == lines[m]);
        assert forall|k: int| 0 <= k < m - 1 implies !bears_mark(#[trigger] rest[k]) by {
            assert(rest[k] == lines[k + 1]);
        }
        lemma_first_mark(rest, m - 1);
    }
}

proof fn lemma_no_mark(lines: Seq<Seq<char>>)
    requires
        forall|k: int| 0 <= k < lines.len() ==> !bears_mark(#[trigger] lines[k]),
    ensures
        marked_line(lines) == lines.len(),
    decreases lines.len(),
{
    if lines.len() > 0 {
        let rest = lines.skip(1);
        assert(!bears_mark(lines[0]));
        assert forall|k: int| 0 <= k < rest.len() implies !bears_mark(#[trigger] rest[k]) by {
            assert(rest[k] == lines[k + 1]);
        }
        lemma_no_mark(rest);
    }
}

} // verus!
