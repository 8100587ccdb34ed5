//! The vocabulary of text that the contracts of this crate are written in.
//!
//! Text is a sequence of characters, as the view of `str` and `String` gives it.

use vstd::prelude::*;

verus! {

/// A character with the Unicode property `White_Space`.
pub open spec fn is_space(c: char) -> bool {
    let n = c as u32;
    ||| 0x09 <= n <= 0x0d
    ||| n == 0x20
    ||| n == 0x85
    ||| n == 0xa0
    ||| n == 0x1680
    ||| 0x2000 <= n <= 0x200a
    ||| n == 0x2028
    ||| n == 0x2029
    ||| n == 0x202f
    ||| n == 0x205f
    ||| n == 0x3000
}

/// `s` without the white space in front.
pub open spec fn trim_start(s: Seq<char>) -> Seq<char>
    decreases s.len(),
{
    if s.len() > 0 && is_space(s[0]) {
        trim_start(s.skip(1))
    } else {
        s
    }
}

/// `s` without the white space behind.
pub open spec fn trim_end(s: Seq<char>) -> Seq<char>
    decreases s.len(),
{
    if s.len() > 0 && is_space(s.last()) {
        trim_end(s.drop_last())
    } else {
        s
    }
}

/// `s` without the white space on either side.
pub open spec fn trim(s: Seq<char>) -> Seq<char> {
    trim_end(trim_start(s))
}

/// The characters of `s` in front of the first white space.
pub open spec fn up_to_space(s: Seq<char>) -> Seq<char>
    decreases s.len(),
{
    if s.len() == 0 || is_space(s[0]) {
        seq![]
    } else {
        seq![s[0]] + up_to_space(s.skip(1))
    }
}

/// The first of the words that white space separates, if there is a word.
pub open spec fn first_word(s: Seq<char>) -> Option<Seq<char>> {
    let rest = trim_start(s);
    if rest.len() == 0 {
        None
    } else {
        Some(up_to_space(rest))
    }
}

/// Where the first `c` stands in `s`; the length of `s` where there is none.
pub open spec fn position(s: Seq<char>, c: char) -> int
    decreases s.len(),
{
    if s.len() == 0 || s[0] == c {
        0
    } else {
        1 + position(s.skip(1), c)
    }
}

/// A line without the carriage return that stood in front of its line feed.
pub open spec fn without_cr(line: Seq<char>) -> Seq<char> {
    if line.len() > 0 && line.last() == '\r' {
        line.drop_last()
    } else {
        line
    }
}

/// The lines of `s`. A line ends with a line feed or with a carriage return and
/// a line feed; the last line need not end with either.
pub open spec fn lines(s: Seq<char>) -> Seq<Seq<char>>
    decreases s.len(),
    via lines_decreases
{
    let n = position(s, '\n');
    if s.len() == 0 {
        seq![]
    } else if n == s.len() {
        seq![s]
    } else {
        seq![without_cr(s.take(n))] + lines(s.skip(n + 1))
    }
}

#[via_fn]
proof fn lines_decreases(s: Seq<char>) {
    lemma_position(s, '\n');
}

/// `s` starts with `prefix`.
pub open spec fn has_prefix(s: Seq<char>, prefix: Seq<char>) -> bool {
    prefix.len() <= s.len() && s.take(prefix.len() as int) == prefix
}

/// `s` ends with `suffix`.
pub open spec fn has_suffix(s: Seq<char>, suffix: Seq<char>) -> bool {
    suffix.len() <= s.len() && s.skip(s.len() - suffix.len()) == suffix
}

/// `part` stands in `s` at `i`.
pub open spec fn occurs_at(s: Seq<char>, part: Seq<char>, i: int) -> bool {
    0 <= i <= s.len() - part.len() && s.subrange(i, i + part.len()) == part
}

/// `part` stands somewhere in `s`.
pub open spec fn contains(s: Seq<char>, part: Seq<char>) -> bool {
    exists|i: int| occurs_at(s, part, i)
}

/// `parts` one behind the other, with `separator` between them.
pub open spec fn join(parts: Seq<Seq<char>>, separator: Seq<char>) -> Seq<char>
    decreases parts.len(),
{
    if parts.len() == 0 {
        seq![]
    } else if parts.len() == 1 {
        parts[0]
    } else {
        join(parts.drop_last(), separator) + separator + parts.last()
    }
}

/// `parts` one behind the other.
pub open spec fn concat(parts: Seq<Seq<char>>) -> Seq<char>
    decreases parts.len(),
{
    if parts.len() == 0 {
        seq![]
    } else {
        concat(parts.drop_last()) + parts.last()
    }
}

/// The decimal digit of `n`, which is below ten.
pub open spec fn digit(n: nat) -> char {
    (48 + n) as char
}

/// `n` in decimal.
pub open spec fn decimal(n: nat) -> Seq<char>
    decreases n,
{
    if n < 10 {
        seq![digit(n)]
    } else {
        decimal(n / 10).push(digit(n % 10))
    }
}

/// One of the ten decimal digits of ASCII.
pub open spec fn is_digit(c: char) -> bool {
    48 <= c as u32 <= 57
}

/// The number that a sequence of decimal digits stands for.
pub open spec fn digits_value(s: Seq<char>) -> nat
    decreases s.len(),
{
    if s.len() == 0 {
        0
    } else {
        digits_value(s.drop_last()) * 10 + (s.last() as u32 - 48) as nat
    }
}

/// `s` without the plus sign in front, if it has one.
pub open spec fn without_plus(s: Seq<char>) -> Seq<char> {
    if s.len() > 0 && s[0] == '+' {
        s.skip(1)
    } else {
        s
    }
}

/// At least one decimal digit, and nothing else.
pub open spec fn all_digits(s: Seq<char>) -> bool {
    s.len() > 0 && forall|i: int| 0 <= i < s.len() ==> is_digit(#[trigger] s[i])
}

/// The number that `s` writes in decimal, with or without a plus sign in front,
/// if it writes one that fits.
pub open spec fn parse_usize(s: Seq<char>) -> Option<usize> {
    let digits = without_plus(s);
    if all_digits(digits) && digits_value(digits) <= usize::MAX {
        Some(digits_value(digits) as usize)
    } else {
        None
    }
}

/// `s`, with spaces behind it up to `width` characters.
pub open spec fn pad_to(s: Seq<char>, width: nat) -> Seq<char> {
    if s.len() < width {
        s + Seq::new((width - s.len()) as nat, |i: int| ' ')
    } else {
        s
    }
}

/// Every line of `s` behind three spaces, each with a line feed.
pub open spec fn indented(s: Seq<char>) -> Seq<char> {
    concat(lines(s).map_values(|line: Seq<char>| "   "@ + line + "\n"@))
}

/// A character of the parameters of a terminal control sequence.
pub open spec fn is_parameter(c: char) -> bool {
    is_digit(c) || c == ';'
}

/// The ASCII letter that ends a terminal control sequence.
pub open spec fn is_final(c: char) -> bool {
    65 <= c as u32 <= 90 || 97 <= c as u32 <= 122
}

/// How many parameter characters stand at the start of `s`.
pub open spec fn parameter_len(s: Seq<char>) -> int
    decreases s.len(),
{
    if s.len() > 0 && is_parameter(s[0]) {
        1 + parameter_len(s.skip(1))
    } else {
        0
    }
}

/// The length of the terminal control sequence at the start of `s`: an escape
/// character, an opening bracket, parameters and a letter. Zero where `s` does
/// not start with one.
pub open spec fn control_len(s: Seq<char>) -> int {
    let n = parameter_len(s.skip(2));
    if s.len() >= 2 && s[0] == '\u{1b}' && s[1] == '[' && 2 + n < s.len() && is_final(s[2 + n]) {
        3 + n
    } else {
        0
    }
}

/// A terminal control sequence of `n` characters stands in `s` at `i`.
pub open spec fn control_at(s: Seq<char>, i: int, n: int) -> bool {
    &&& 0 <= i
    &&& 3 <= n <= s.len() - i
    &&& s[i] == '\u{1b}'
    &&& s[i + 1] == '['
    &&& forall|k: int| i + 2 <= k < i + n - 1 ==> is_parameter(#[trigger] s[k])
    &&& is_final(s[i + n - 1])
}

/// Some terminal control sequence stands in `s`.
pub open spec fn has_control(s: Seq<char>) -> bool {
    exists|i: int, n: int| control_at(s, i, n)
}

/// `s` without the terminal control sequences that set colours and styles.
pub open spec fn strip_ansi(s: Seq<char>) -> Seq<char>
    decreases s.len(),
    via strip_ansi_decreases
{
    if s.len() == 0 {
        seq![]
    } else if control_len(s) > 0 {
        strip_ansi(s.skip(control_len(s)))
    } else {
        seq![s[0]] + strip_ansi(s.skip(1))
    }
}

#[via_fn]
proof fn strip_ansi_decreases(s: Seq<char>) {
    lemma_parameter_len(s.skip(2));
}

pub proof fn lemma_position(s: Seq<char>, c: char)
    ensures
        0 <= position(s, c) <= s.len(),
        position(s, c) < s.len() ==> s[position(s, c)] == c,
        forall|i: int| 0 <= i < position(s, c) ==> s[i] != c,
    decreases s.len(),
{
    if s.len() > 0 && s[0] != c {
        lemma_position(s.skip(1), c);
        assert forall|i: int| 0 <= i < position(s, c) implies s[i] != c by {
            if i > 0 {
                assert(s.skip(1)[i - 1] == s[i]);
            }
        }
    }
}

pub proof fn lemma_parameter_len(s: Seq<char>)
    ensures
        0 <= parameter_len(s) <= s.len(),
        parameter_len(s) < s.len() ==> !is_parameter(s[parameter_len(s)]),
        forall|i: int| 0 <= i < parameter_len(s) ==> is_parameter(#[trigger] s[i]),
    decreases s.len(),
{
    if s.len() > 0 && is_parameter(s[0]) {
        let rest = s.skip(1);
        lemma_parameter_len(rest);
        assert forall|i: int| 0 <= i < parameter_len(s) implies is_parameter(#[trigger] s[i]) by {
            if i > 0 {
                assert(rest[i - 1] == s[i]);
            }
        }
    }
}

pub proof fn lemma_add_assoc(a: Seq<char>, b: Seq<char>, c: Seq<char>)
    ensures
        (a + b) + c == a + (b + c),
{
}

/// The first digits of a number stand for no more than all of them.
pub proof fn lemma_digits_value_prefix(s: Seq<char>, n: int)
    requires
        0 <= n <= s.len(),
    ensures
        digits_value(s.take(n)) <= digits_value(s),
    decreases s.len() - n,
{
    if n == s.len() {
        assert(s.take(n) == s);
    } else {
        lemma_digits_value_prefix(s, n + 1);
        assert(s.take(n + 1).drop_last() == s.take(n));
    }
}

/// What trimming the end leaves is the start of the text, up to the last
/// character that is no white space.
pub proof fn lemma_trim_end(s: Seq<char>)
    ensures
        trim_end(s).len() <= s.len(),
        trim_end(s) == s.take(trim_end(s).len() as int),
        forall|i: int| 0 <= i < s.len() && !is_space(#[trigger] s[i]) ==> i < trim_end(s).len(),
    decreases s.len(),
{
    if s.len() > 0 && is_space(s.last()) {
        let short = s.drop_last();
        lemma_trim_end(short);
        assert(s.take(trim_end(s).len() as int) == short.take(trim_end(s).len() as int));
        assert forall|i: int| 0 <= i < s.len() && !is_space(#[trigger] s[i]) implies i < trim_end(
            s,
        ).len() by {
            assert(i < short.len() && short[i] == s[i]);
        }
    } else {
        assert(s.take(s.len() as int) == s);
    }
}

/// Text holds the parts of its halves.
pub proof fn lemma_contains_add(a: Seq<char>, b: Seq<char>, part: Seq<char>)
    ensures
        contains(a, part) ==> contains(a + b, part),
        contains(b, part) ==> contains(a + b, part),
{
    if contains(a, part) {
        let i = choose|i: int| occurs_at(a, part, i);
        assert((a + b).subrange(i, i + part.len()) == a.subrange(i, i + part.len()));
        assert(occurs_at(a + b, part, i));
    }
    if contains(b, part) {
        let i = choose|i: int| occurs_at(b, part, i);
        assert((a + b).subrange(a.len() + i, a.len() + i + part.len()) == b.subrange(
            i,
            i + part.len(),
        ));
        assert(occurs_at(a + b, part, a.len() + i));
    }
}

/// Text is a part of itself.
pub proof fn lemma_contains_self(s: Seq<char>)
    ensures
        contains(s, s),
{
    assert(s.subrange(0, s.len() as int) == s);
    assert(occurs_at(s, s, 0));
}

/// Joined text holds each of its parts.
pub proof fn lemma_join_contains(parts: Seq<Seq<char>>, separator: Seq<char>, i: int)
    requires
        0 <= i < parts.len(),
    ensures
        contains(join(parts, separator), parts[i]),
    decreases parts.len(),
{
    if parts.len() == 1 {
        lemma_contains_self(parts[0]);
    } else {
        let front = join(parts.drop_last(), separator);
        if i == parts.len() - 1 {
            lemma_contains_self(parts.last());
        } else {
            lemma_join_contains(parts.drop_last(), separator, i);
            lemma_contains_add(front, separator, parts[i]);
        }
        lemma_contains_add(front + separator, parts.last(), parts[i]);
    }
}

/// The first part, the separator and the rest joined.
pub proof fn lemma_join_front(parts: Seq<Seq<char>>, separator: Seq<char>)
    requires
        parts.len() >= 2,
    ensures
        join(parts, separator) == parts[0] + separator + join(parts.skip(1), separator),
    decreases parts.len(),
{
    if parts.len() == 2 {
        reveal_with_fuel(join, 2);
    } else {
        let front = parts.drop_last();
        lemma_join_front(front, separator);
        assert(front.skip(1) == parts.skip(1).drop_last());
        assert(join(parts, separator) == parts[0] + separator + join(front.skip(1), separator)
            + separator + parts.last());
        assert(join(parts.skip(1), separator) == join(front.skip(1), separator) + separator
            + parts.last());
    }
}

/// No line holds a line feed.
pub proof fn lemma_lines_hold_no_line_feed(s: Seq<char>)
    ensures
        forall|i: int| 0 <= i < lines(s).len() ==> !(#[trigger] lines(s)[i]).contains('\n'),
    decreases s.len(),
{
    lemma_position(s, '\n');
    let n = position(s, '\n');
    if s.len() > 0 && n < s.len() {
        lemma_lines_hold_no_line_feed(s.skip(n + 1));
        assert forall|i: int| 0 <= i < lines(s).len() implies !(#[trigger] lines(s)[i]).contains(
            '\n',
        ) by {
            if i > 0 {
                assert(lines(s)[i] == lines(s.skip(n + 1))[i - 1]);
            }
        }
    }
}

/// The first line feed of `a`, a line feed and `b` is that one, where `a` has none.
proof fn lemma_position_add(a: Seq<char>, b: Seq<char>)
    requires
        !a.contains('\n'),
    ensures
        position(a + seq!['\n'] + b, '\n') == a.len(),
{
    let s = a + seq!['\n'] + b;
    lemma_position(s, '\n');
    let n = position(s, '\n');
    assert(s[a.len() as int] == '\n');
    if n < a.len() {
        assert(a[n] == s[n]);
        assert(a.contains('\n'));
    }
}

/// Joining parts without line feeds line by line gives no more lines than parts.
pub proof fn lemma_joined_lines(parts: Seq<Seq<char>>)
    requires
        forall|i: int| 0 <= i < parts.len() ==> !(#[trigger] parts[i]).contains('\n'),
    ensures
        lines(join(parts, "\n"@)).len() <= parts.len(),
    decreases parts.len(),
{
    reveal_strlit("\n");
    assert("\n"@ == seq!['\n']);
    if parts.len() == 1 {
        let s = parts[0];
        lemma_position(s, '\n');
        if position(s, '\n') < s.len() {
            assert(s.contains('\n'));
        }
    } else if parts.len() >= 2 {
        let rest = parts.skip(1);
        lemma_join_front(parts, "\n"@);
        let joined = join(rest, "\n"@);
        let s = parts[0] + seq!['\n'] + joined;
        assert(join(parts, "\n"@) == s);
        lemma_position_add(parts[0], joined);
        assert(s.skip(parts[0].len() as int + 1) == joined);
        assert forall|i: int| 0 <= i < rest.len() implies !(#[trigger] rest[i]).contains('\n') by {
            assert(rest[i] == parts[i + 1]);
        }
        lemma_joined_lines(rest);
    }
}

/// Concatenated text holds each of its parts.
pub proof fn lemma_concat_contains(parts: Seq<Seq<char>>, i: int)
    requires
        0 <= i < parts.len(),
    ensures
        contains(concat(parts), parts[i]),
    decreases parts.len(),
{
    if i == parts.len() - 1 {
        lemma_contains_self(parts[i]);
    } else {
        lemma_concat_contains(parts.drop_last(), i);
    }
    lemma_contains_add(concat(parts.drop_last()), parts.last(), parts[i]);
}

/// A part whose last character is no white space survives trimming the end.
pub proof fn lemma_trim_end_contains(s: Seq<char>, part: Seq<char>)
    requires
        contains(s, part),
        part.len() > 0,
        !is_space(part.last()),
    ensures
        contains(trim_end(s), part),
{
    let i = choose|i: int| occurs_at(s, part, i);
    lemma_trim_end(s);
    let short = trim_end(s);
    assert(s[i + part.len() - 1] == s.subrange(i, i + part.len()).last());
    assert(short.subrange(i, i + part.len()) == s.subrange(i, i + part.len()));
    assert(occurs_at(short, part, i));
}

/// A number is written in digits, of which there is at least one.
pub proof fn lemma_decimal_is_digits(n: nat)
    ensures
        all_digits(decimal(n)),
    decreases n,
{
    if n >= 10 {
        lemma_decimal_is_digits(n / 10);
    }
}

/// Where nothing is left of text, it was all white space.
pub proof fn lemma_trimmed_to_nothing(s: Seq<char>)
    requires
        trim(s).len() == 0,
    ensures
        forall|i: int| 0 <= i < s.len() ==> is_space(#[trigger] s[i]),
    decreases s.len(),
{
    if s.len() > 0 {
        if is_space(s[0]) {
            lemma_trimmed_to_nothing(s.skip(1));
            assert forall|i: int| 0 <= i < s.len() implies is_space(#[trigger] s[i]) by {
                if i > 0 {
                    assert(s.skip(1)[i - 1] == s[i]);
                }
            }
        } else {
            lemma_trim_end(s);
        }
    }
}

/// Nothing is left of text that is all white space.
pub proof fn lemma_space_is_trimmed(s: Seq<char>)
    requires
        forall|i: int| 0 <= i < s.len() ==> is_space(#[trigger] s[i]),
    ensures
        trim(s).len() == 0,
    decreases s.len(),
{
    if s.len() > 0 {
        lemma_space_is_trimmed(s.skip(1));
    }
}

/// The lines of white space are white space.
pub proof fn lemma_lines_of_space(s: Seq<char>, k: int)
    requires
        forall|i: int| 0 <= i < s.len() ==> is_space(#[trigger] s[i]),
        0 <= k < lines(s).len(),
    ensures
        forall|i: int| 0 <= i < lines(s)[k].len() ==> is_space(#[trigger] lines(s)[k][i]),
    decreases s.len(),
{
    lemma_position(s, '\n');
    let n = position(s, '\n');
    if s.len() > 0 && n < s.len() && k > 0 {
        let rest = s.skip(n + 1);
        lemma_lines_of_space(rest, k - 1);
        assert(lines(s)[k] == lines(rest)[k - 1]);
    }
}

/// The length of the control sequence at the start, where there is one.
proof fn lemma_control_len(s: Seq<char>)
    ensures
        control_len(s) > 0 ==> control_at(s, 0, control_len(s)),
        forall|n: int| #[trigger] control_at(s, 0, n) ==> control_len(s) == n,
{
    let rest = s.skip(2);
    lemma_parameter_len(rest);
    if control_len(s) > 0 {
        assert forall|k: int| 2 <= k < control_len(s) - 1 implies is_parameter(
            #[trigger] s[k],
        ) by {
            assert(rest[k - 2] == s[k]);
        }
    }
    assert forall|n: int| #[trigger] control_at(s, 0, n) implies control_len(s) == n by {
        let m = parameter_len(rest);
        if m < n - 3 {
            assert(rest[m] == s[m + 2]);
        }
        if m > n - 3 {
            assert(rest[n - 3] == s[n - 1]);
        }
    }
}

proof fn lemma_strip_ansi_len(s: Seq<char>)
    ensures
        strip_ansi(s).len() <= s.len(),
    decreases s.len(),
{
    lemma_parameter_len(s.skip(2));
    if s.len() > 0 {
        if control_len(s) > 0 {
            lemma_strip_ansi_len(s.skip(control_len(s)));
        } else {
            lemma_strip_ansi_len(s.skip(1));
        }
    }
}

/// Where no control sequence stands at the start, it stands in the rest.
proof fn lemma_has_control_rest(s: Seq<char>)
    requires
        s.len() > 0,
        control_len(s) <= 0,
    ensures
        has_control(s) <==> has_control(s.skip(1)),
{
    let rest = s.skip(1);
    lemma_control_len(s);
    lemma_has_control_within(s, 1, s.len() as int);
    assert(s.subrange(1, s.len() as int) == rest);
    if has_control(s) {
        let (i, n) = choose|i: int, n: int| control_at(s, i, n);
        assert(i > 0) by {
            if i == 0 {
                assert(control_at(s, 0, n));
            }
        }
        assert forall|k: int| i - 1 + 2 <= k < i - 1 + n - 1 implies is_parameter(
            #[trigger] rest[k],
        ) by {
            assert(rest[k] == s[k + 1]);
        }
        assert(control_at(rest, i - 1, n));
    }
}

/// Stripping leaves text as it is if and only if no control sequence stands in it.
pub proof fn lemma_strip_ansi_fixed(s: Seq<char>)
    ensures
        strip_ansi(s) == s <==> !has_control(s),
    decreases s.len(),
{
    lemma_parameter_len(s.skip(2));
    if s.len() == 0 {
        assert(strip_ansi(s) == s);
        assert(!has_control(s));
    } else if control_len(s) > 0 {
        lemma_control_len(s);
        lemma_strip_ansi_len(s.skip(control_len(s)));
        assert(strip_ansi(s).len() < s.len());
        assert(control_at(s, 0, control_len(s)));
    } else {
        let rest = s.skip(1);
        lemma_strip_ansi_fixed(rest);
        lemma_has_control_rest(s);
        assert(strip_ansi(s) == seq![s[0]] + strip_ansi(rest));
        assert(strip_ansi(s).skip(1) == strip_ansi(rest));
        assert(seq![s[0]] + rest == s);
    }
}

/// A control sequence in a part of `s` is one in `s`.
pub proof fn lemma_has_control_within(s: Seq<char>, a: int, b: int)
    requires
        0 <= a <= b <= s.len(),
    ensures
        has_control(s.subrange(a, b)) ==> has_control(s),
{
    let part = s.subrange(a, b);
    if has_control(part) {
        let (i, n) = choose|i: int, n: int| control_at(part, i, n);
        assert forall|k: int| a + i + 2 <= k < a + i + n - 1 implies is_parameter(
            #[trigger] s[k],
        ) by {
            assert(part[k - a] == s[k]);
        }
        assert(control_at(s, a + i, n));
    }
}

/// No control sequence goes over a line feed.
proof fn lemma_control_add(a: Seq<char>, b: Seq<char>)
    requires
        !has_control(a),
        !has_control(b),
    ensures
        !has_control(a + seq!['\n'] + b),
{
    let s = a + seq!['\n'] + b;
    let m = a.len() as int;
    if has_control(s) {
        let (i, n) = choose|i: int, n: int| control_at(s, i, n);
        assert(s[m] == '\n');
        if i + n <= m {
            assert forall|k: int| i + 2 <= k < i + n - 1 implies is_parameter(
                #[trigger] a[k],
            ) by {
                assert(a[k] == s[k]);
            }
            assert(control_at(a, i, n));
        } else if i > m {
            let j = i - m - 1;
            assert forall|k: int| j + 2 <= k < j + n - 1 implies is_parameter(
                #[trigger] b[k],
            ) by {
                assert(b[k] == s[k + m + 1]);
            }
            assert(control_at(b, j, n));
        } else {
            assert(i + 2 <= m < i + n - 1 ==> is_parameter(s[m]));
        }
    }
}

/// Text joined line by line holds a control sequence only where a part does.
pub proof fn lemma_joined_control(parts: Seq<Seq<char>>)
    requires
        forall|i: int| 0 <= i < parts.len() ==> !has_control(#[trigger] parts[i]),
    ensures
        !has_control(join(parts, "\n"@)),
    decreases parts.len(),
{
    reveal_strlit("\n");
    assert("\n"@ == seq!['\n']);
    if parts.len() >= 2 {
        lemma_joined_control(parts.drop_last());
        assert(!has_control(parts.last()));
        lemma_control_add(join(parts.drop_last(), "\n"@), parts.last());
    }
}

/// Where a line stands in the text.
pub proof fn lemma_line_within(s: Seq<char>, k: int) -> (at: int)
    requires
        0 <= k < lines(s).len(),
    ensures
        0 <= at <= s.len() - lines(s)[k].len(),
        lines(s)[k] == s.subrange(at, at + lines(s)[k].len()),
    decreases s.len(),
{
    lemma_position(s, '\n');
    let n = position(s, '\n');
    if n == s.len() || k == 0 {
        assert(lines(s)[k] == s.subrange(0, lines(s)[k].len() as int));
        0
    } else {
        let rest = s.skip(n + 1);
        let at = lemma_line_within(rest, k - 1);
        let len = lines(s)[k].len();
        assert(lines(s)[k] == lines(rest)[k - 1]);
        assert(rest.subrange(at, at + len) == s.subrange(n + 1 + at, n + 1 + at + len));
        n + 1 + at
    }
}

/// A line that joining and splitting leaves as it is.
pub open spec fn is_whole_line(line: Seq<char>) -> bool {
    line.len() > 0 && !line.contains('\n') && line.last() != '\r'
}

/// The lines of text joined line by line are its parts.
pub proof fn lemma_lines_of_join(parts: Seq<Seq<char>>)
    requires
        forall|i: int| 0 <= i < parts.len() ==> is_whole_line(#[trigger] parts[i]),
    ensures
        lines(join(parts, "\n"@)) == parts,
    decreases parts.len(),
{
    reveal_strlit("\n");
    assert("\n"@ == seq!['\n']);
    if parts.len() == 1 {
        let s = parts[0];
        lemma_position(s, '\n');
        if position(s, '\n') < s.len() {
            assert(s.contains('\n'));
        }
        assert(lines(s) == parts);
    } else if parts.len() >= 2 {
        let rest = parts.skip(1);
        lemma_join_front(parts, "\n"@);
        let joined = join(rest, "\n"@);
        let s = parts[0] + seq!['\n'] + joined;
        assert(join(parts, "\n"@) == s);
        assert(is_whole_line(parts[0]));
        lemma_position_add(parts[0], joined);
        assert(s.take(parts[0].len() as int) == parts[0]);
        assert(s.skip(parts[0].len() as int + 1) == joined);
        assert forall|i: int| 0 <= i < rest.len() implies is_whole_line(#[trigger] rest[i]) by {
            assert(rest[i] == parts[i + 1]);
        }
        lemma_lines_of_join(rest);
        assert(seq![parts[0]] + rest == parts);
    }
}

/// Text behind `a` holds `part` where `a` holds no character that it starts with.
pub proof fn lemma_contains_behind(a: Seq<char>, b: Seq<char>, part: Seq<char>)
    requires
        part.len() > 0,
        !a.contains(part[0]),
    ensures
        contains(a + b, part) <==> contains(b, part),
{
    lemma_contains_add(a, b, part);
    if contains(a + b, part) {
        let i = choose|i: int| occurs_at(a + b, part, i);
        assert((a + b)[i] == (a + b).subrange(i, i + part.len())[0]);
        if i < a.len() {
            assert(a[i] == part[0]);
        }
        assert((a + b).subrange(i, i + part.len()) == b.subrange(
            i - a.len(),
            i - a.len() + part.len(),
        ));
        assert(occurs_at(b, part, i - a.len()));
    }
}

/// Text joined line by line holds what goes over no line feed only where a part
/// does.
pub proof fn lemma_joined_contains(parts: Seq<Seq<char>>, part: Seq<char>)
    requires
        part.len() > 0,
        !part.contains('\n'),
    ensures
        contains(join(parts, "\n"@), part) <==> exists|i: int|
            0 <= i < parts.len() && contains(#[trigger] parts[i], part),
    decreases parts.len(),
{
    reveal_strlit("\n");
    assert("\n"@ == seq!['\n']);
    let s = join(parts, "\n"@);
    if exists|i: int| 0 <= i < parts.len() && contains(#[trigger] parts[i], part) {
        let i = choose|i: int| 0 <= i < parts.len() && contains(#[trigger] parts[i], part);
        lemma_join_contains(parts, "\n"@, i);
        lemma_contains_transitive(s, parts[i], part);
    }
    if contains(s, part) {
        let i = choose|i: int| occurs_at(s, part, i);
        if parts.len() == 1 {
            assert(contains(parts[0], part));
        } else if parts.len() >= 2 {
            let short = parts.drop_last();
            let front = join(short, "\n"@);
            let m = front.len() as int;
            assert(s == front + seq!['\n'] + parts.last());
            if i + part.len() <= m {
                assert(front.subrange(i, i + part.len()) == s.subrange(i, i + part.len()));
                assert(occurs_at(front, part, i));
                lemma_joined_contains(short, part);
                let k = choose|k: int| 0 <= k < short.len() && contains(#[trigger] short[k], part);
                assert(contains(parts[k], part));
            } else if i > m {
                assert(parts.last().subrange(i - m - 1, i - m - 1 + part.len()) == s.subrange(
                    i,
                    i + part.len(),
                ));
                assert(occurs_at(parts.last(), part, i - m - 1));
                assert(contains(parts[parts.len() - 1], part));
            } else {
                assert(part[m - i] == s[m]);
            }
        }
    }
}

/// A part of a part is a part.
proof fn lemma_contains_transitive(s: Seq<char>, part: Seq<char>, inner: Seq<char>)
    requires
        contains(s, part),
        contains(part, inner),
    ensures
        contains(s, inner),
{
    let i = choose|i: int| occurs_at(s, part, i);
    let j = choose|j: int| occurs_at(part, inner, j);
    assert(s.subrange(i + j, i + j + inner.len()) == s.subrange(i, i + part.len()).subrange(
        j,
        j + inner.len(),
    ));
    assert(occurs_at(s, inner, i + j));
}

} // verus!
