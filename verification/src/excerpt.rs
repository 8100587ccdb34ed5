//! The parts of a stack trace and of a code snippet that are worth showing.

use vstd::prelude::*;
use vstd::slice::slice_subrange;
use crate::chars::{self, views};
use crate::text;

verus! {

/// How many frames of a stack are shown.
pub const MAX_STACK_FRAMES: usize = 5;

/// How many lines of a snippet without a marker are shown.
pub const MAX_UNMARKED_LINES: usize = 5;

/// The first `n` of `parts`, or all of them where there are no more.
pub open spec fn at_most<T>(parts: Seq<T>, n: nat) -> Seq<T> {
    if parts.len() <= n {
        parts
    } else {
        parts.take(n as int)
    }
}

/// A line of a stack trace that names a frame.
pub open spec fn is_frame(line: Seq<char>) -> bool {
    text::has_prefix(text::trim_start(line), "at "@)
}

/// A line that names a file of a dependency.
pub open spec fn in_node_modules(line: Seq<char>) -> bool {
    text::contains(line, "node_modules/"@)
}

/// A frame of the user's own code.
pub open spec fn is_user_frame(line: Seq<char>) -> bool {
    is_frame(line) && !in_node_modules(line)
}

/// Some line is a frame of the user's own code.
pub open spec fn has_user_frame(lines: Seq<Seq<char>>) -> bool {
    exists|i: int| 0 <= i < lines.len() && is_user_frame(#[trigger] lines[i])
}

/// The frames of a stack: those of the user's own code, and those of
/// dependencies that come before the first of them.
pub open spec fn kept_frames(lines: Seq<Seq<char>>) -> Seq<Seq<char>>
    decreases lines.len(),
{
    if lines.len() == 0 {
        seq![]
    } else {
        let kept = kept_frames(lines.drop_last());
        if is_user_frame(lines.last()) || (is_frame(lines.last()) && !has_user_frame(
            lines.drop_last(),
        )) {
            kept.push(lines.last())
        } else {
            kept
        }
    }
}

/// The frames of a stack that are shown.
pub open spec fn shown_frames(stack: Seq<char>) -> Seq<Seq<char>> {
    at_most(kept_frames(text::lines(stack)), MAX_STACK_FRAMES as nat)
}

/// What is shown of a stack.
pub open spec fn trimmed_stack(stack: Seq<char>) -> Seq<char> {
    text::join(shown_frames(stack), "\n"@)
}

/// The marker that stands in front of the line that failed.
pub open spec fn is_marked(line: Seq<char>) -> bool {
    text::has_prefix(text::trim_start(line), ">"@)
}

/// The first marked line; the number of lines where none is marked.
pub open spec fn marked_line(lines: Seq<Seq<char>>) -> int
    decreases lines.len(),
{
    if lines.len() == 0 || is_marked(lines[0]) {
        0
    } else {
        1 + marked_line(lines.skip(1))
    }
}

/// The marked line with two lines on either side, as far as there are so many;
/// the first lines where none is marked.
pub open spec fn snippet_window(lines: Seq<Seq<char>>) -> Seq<Seq<char>> {
    let m = marked_line(lines);
    if m == lines.len() {
        at_most(lines, MAX_UNMARKED_LINES as nat)
    } else {
        let start = if m < 2 {
            0
        } else {
            m - 2
        };
        let end = if m + 3 < lines.len() {
            m + 3
        } else {
            lines.len() as int
        };
        lines.subrange(start, end)
    }
}

/// What is shown of a snippet.
pub open spec fn trimmed_snippet(snippet: Seq<char>) -> Seq<char> {
    text::join(snippet_window(text::lines(snippet)), "\n"@)
}

/// What is shown of `stack`: up to `MAX_STACK_FRAMES` frames. A frame of a
/// dependency is left out once a frame of the user's own code is kept.
pub fn trim_stack(stack: &str) -> (r: String)
    ensures
        r@ == trimmed_stack(stack@),
{
    let whole = chars::to_chars(stack);
    let lines = chars::lines(whole.as_slice());
    let ghost all = text::lines(stack@);
    let mut kept: Vec<&[char]> = Vec::new();
    let mut user_frame: bool = false;
    let mut i: usize = 0;
    assert(views(kept@) == kept_frames(all.take(0)));
    while i < lines.len() && kept.len() < MAX_STACK_FRAMES
        invariant
            i <= lines.len(),
            views(lines@) == all,
            kept.len() <= MAX_STACK_FRAMES,
            views(kept@) == kept_frames(all.take(i as int)),
            user_frame == has_user_frame(all.take(i as int)),
        decreases lines.len() - i,
    {
        let line = lines[i];
        let ghost seen = all.take(i as int);
        let ghost next = all.take(i + 1);
        let ghost before = kept@;
        proof {
            assert(views(lines@)[i as int] == line@);
            assert(next.drop_last() == seen && next.last() == line@);
            assert forall|k: int| 0 <= k < i implies #[trigger] next[k] == seen[k] by {}
            if has_user_frame(seen) {
                let k = choose|k: int| 0 <= k < seen.len() && is_user_frame(#[trigger] seen[k]);
                assert(is_user_frame(next[k]));
            }
            if is_user_frame(line@) {
                assert(is_user_frame(next[i as int]));
            }
            if has_user_frame(next) {
                let k = choose|k: int| 0 <= k < next.len() && is_user_frame(#[trigger] next[k]);
                assert(k < i ==> is_user_frame(seen[k]));
            }
        }
        if chars::starts_with(chars::trim_start(line), "at ") {
            let dependency = chars::contains(line, "node_modules/");
            if !dependency || !user_frame {
                kept.push(line);
                assert(views(kept@) == views(before).push(line@));
            }
            if !dependency {
                user_frame = true;
            }
        }
        i += 1;
    }
    proof {
        lemma_kept_frames_prefix(all, i as int);
        if i == lines.len() {
            assert(all.take(i as int) == all);
        } else {
            assert(views(kept@) == kept_frames(all).take(MAX_STACK_FRAMES as int));
            assert(kept_frames(all).take(kept_frames(all).len() as int) == kept_frames(all));
        }
        assert(views(kept@) == shown_frames(stack@));
    }
    chars::join(kept.as_slice(), "\n")
}

/// What is shown of `snippet`, a piece of code in which `>` marks the line that
/// failed: that line and two lines on either side.
pub fn trim_snippet(snippet: &str) -> (r: String)
    ensures
        r@ == trimmed_snippet(snippet@),
{
    let whole = chars::to_chars(snippet);
    let lines = chars::lines(whole.as_slice());
    let ghost all = text::lines(snippet@);
    let n: usize = lines.len();
    let mut m: usize = 0;
    assert(all.skip(0) == all);
    while m < n && !chars::starts_with(chars::trim_start(lines[m]), ">")
        invariant
            m <= n,
            n == lines.len(),
            views(lines@) == all,
            marked_line(all) == m + marked_line(all.skip(m as int)),
        decreases n - m,
    {
        assert(views(lines@)[m as int] == lines@[m as int]@);
        assert(all.skip(m as int)[0] == lines@[m as int]@);
        assert(all.skip(m as int).skip(1) == all.skip(m + 1));
        m += 1;
    }
    assert(m < n ==> all.skip(m as int)[0] == lines@[m as int]@);
    assert(marked_line(all) == m);
    let start: usize = if m == n || m < 2 {
        0
    } else {
        m - 2
    };
    let end: usize = if m == n {
        if n <= MAX_UNMARKED_LINES {
            n
        } else {
            MAX_UNMARKED_LINES
        }
    } else if n - m > 3 {
        m + 3
    } else {
        n
    };
    let window = slice_subrange(lines.as_slice(), start, end);
    assert(views(window@) == snippet_window(all));
    chars::join(window, "\n")
}

/// Further lines add frames behind those kept so far.
proof fn lemma_kept_frames_prefix(lines: Seq<Seq<char>>, n: int)
    requires
        0 <= n <= lines.len(),
    ensures
        kept_frames(lines.take(n)).len() <= kept_frames(lines).len(),
        kept_frames(lines).take(kept_frames(lines.take(n)).len() as int) == kept_frames(
            lines.take(n),
        ),
    decreases lines.len() - n,
{
    if n == lines.len() {
        assert(lines.take(n) == lines);
    } else {
        lemma_kept_frames_prefix(lines, n + 1);
        assert(lines.take(n + 1).drop_last() == lines.take(n));
        let short = kept_frames(lines.take(n));
        let long = kept_frames(lines.take(n + 1));
        assert(long.take(short.len() as int) == short);
        assert(kept_frames(lines).take(short.len() as int) == kept_frames(lines).take(
            long.len() as int,
        ).take(short.len() as int));
    }
}

} // verus!
