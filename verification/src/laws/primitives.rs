//! What the words of `text` mean, said of the characters.

use vstd::prelude::*;
use crate::text;

verus! {

/// Nothing but white space.
pub open spec fn all_space(s: Seq<char>) -> bool {
    forall|i: int| 0 <= i < s.len() ==> text::is_space(#[trigger] s[i])
}

/// No white space.
pub open spec fn no_space(s: Seq<char>) -> bool {
    forall|i: int| 0 <= i < s.len() ==> !text::is_space(#[trigger] s[i])
}

/// The code points of white space.
pub open spec fn space_code_points() -> Seq<u32> {
    seq![
        9, 10, 11, 12, 13, 32, 133, 160, 5760, 8192, 8193, 8194, 8195, 8196, 8197, 8198, 8199, 8200,
        8201, 8202, 8232, 8233, 8239, 8287, 12288,
    ]
}

/// White space is the twenty-five code points with that Unicode property.
pub proof fn law_white_space(c: char)
    ensures
        text::is_space(c) <==> space_code_points().contains(c as u32),
{
    let all = space_code_points();
    let n = c as u32;
    if text::is_space(c) {
        let i = if n <= 13 {
            n - 9
        } else if n == 32 {
            5
        } else if n == 133 {
            6
        } else if n == 160 {
            7
        } else if n == 5760 {
            8
        } else if n <= 8202 {
            n - 8192 + 9
        } else if n == 8232 {
            20
        } else if n == 8233 {
            21
        } else if n == 8239 {
            22
        } else if n == 8287 {
            23
        } else {
            24
        };
        assert(all[i] == n);
    }
    if all.contains(n) {
        let i = choose|i: int| 0 <= i < all.len() && all[i] == n;
        assert(all[i] == n);
    }
}

/// Text starts with a prefix if and only if it is the prefix and something behind.
pub proof fn law_prefix(s: Seq<char>, prefix: Seq<char>)
    ensures
        text::has_prefix(s, prefix) <==> exists|rest: Seq<char>| s == #[trigger] (prefix + rest),
{
    if text::has_prefix(s, prefix) {
        assert(s == prefix + s.skip(prefix.len() as int));
    }
    if exists|rest: Seq<char>| s == #[trigger] (prefix + rest) {
        let rest = choose|rest: Seq<char>| s == #[trigger] (prefix + rest);
        assert(s.take(prefix.len() as int) == prefix);
    }
}

/// Text ends with a suffix if and only if it is something and the suffix behind.
pub proof fn law_suffix(s: Seq<char>, suffix: Seq<char>)
    ensures
        text::has_suffix(s, suffix) <==> exists|front: Seq<char>| s == #[trigger] (front + suffix),
{
    if text::has_suffix(s, suffix) {
        assert(s == s.take(s.len() - suffix.len()) + suffix);
    }
    if exists|front: Seq<char>| s == #[trigger] (front + suffix) {
        let front = choose|front: Seq<char>| s == #[trigger] (front + suffix);
        assert(s.skip(s.len() - suffix.len()) == suffix);
    }
}

/// Text holds a part if and only if it is the part with something on either side.
pub proof fn law_contains(s: Seq<char>, part: Seq<char>)
    ensures
        text::contains(s, part) <==> exists|front: Seq<char>, rest: Seq<char>|
            s == #[trigger] (front + part + rest),
{
    if text::contains(s, part) {
        let i = choose|i: int| text::occurs_at(s, part, i);
        assert(s == s.take(i) + part + s.skip(i + part.len()));
    }
    if exists|front: Seq<char>, rest: Seq<char>| s == #[trigger] (front + part + rest) {
        let (front, rest) = choose|front: Seq<char>, rest: Seq<char>|
            s == #[trigger] (front + part + rest);
        assert(s.subrange(front.len() as int, front.len() as int + part.len()) == part);
        assert(text::occurs_at(s, part, front.len() as int));
    }
}

/// What is cut off the start is white space, and what is left does not start with
/// any.
pub proof fn law_trim_start(s: Seq<char>) -> (cut: Seq<char>)
    ensures
        s == cut + text::trim_start(s),
        all_space(cut),
        text::trim_start(s).len() > 0 ==> !text::is_space(text::trim_start(s)[0]),
    decreases s.len(),
{
    if s.len() > 0 && text::is_space(s[0]) {
        let cut = law_trim_start(s.skip(1));
        assert(s == seq![s[0]] + s.skip(1));
        text::lemma_add_assoc(seq![s[0]], cut, text::trim_start(s));
        seq![s[0]] + cut
    } else {
        assert(s == Seq::<char>::empty() + s);
        seq![]
    }
}

/// What is cut off the end is white space, and what is left does not end with any.
pub proof fn law_trim_end(s: Seq<char>) -> (cut: Seq<char>)
    ensures
        s == text::trim_end(s) + cut,
        all_space(cut),
        text::trim_end(s).len() > 0 ==> !text::is_space(text::trim_end(s).last()),
    decreases s.len(),
{
    if s.len() > 0 && text::is_space(s.last()) {
        let cut = law_trim_end(s.drop_last());
        assert(s == s.drop_last() + seq![s.last()]);
        text::lemma_add_assoc(text::trim_end(s), cut, seq![s.last()]);
        cut + seq![s.last()]
    } else {
        assert(s == s + Seq::<char>::empty());
        seq![]
    }
}

/// Trimming cuts white space off both ends, all of it, and nothing else.
pub proof fn law_trim(s: Seq<char>) -> (cut: (Seq<char>, Seq<char>))
    ensures
        s == cut.0 + text::trim(s) + cut.1,
        all_space(cut.0),
        all_space(cut.1),
        text::trim(s).len() > 0 ==> !text::is_space(text::trim(s)[0]) && !text::is_space(
            text::trim(s).last(),
        ),
{
    let front = law_trim_start(s);
    let back = law_trim_end(text::trim_start(s));
    assert(s == front + (text::trim(s) + back));
    assert(front + (text::trim(s) + back) == front + text::trim(s) + back);
    if text::trim(s).len() > 0 {
        assert(text::trim(s)[0] == text::trim_start(s)[0]);
    }
    (front, back)
}

/// There is no first word if and only if there is nothing but white space.
pub proof fn law_no_word(s: Seq<char>)
    ensures
        text::first_word(s) is None <==> all_space(s),
{
    let cut = law_trim_start(s);
    let rest = text::trim_start(s);
    if rest.len() > 0 {
        assert(s[cut.len() as int] == rest[0]);
    } else {
        assert(s == cut);
    }
}

/// The first word stands behind white space alone, is not empty, holds no white
/// space, and ends where the text does or at white space.
pub proof fn law_first_word(s: Seq<char>, word: Seq<char>) -> (around: (Seq<char>, Seq<char>))
    requires
        text::first_word(s) == Some(word),
    ensures
        s == around.0 + word + around.1,
        all_space(around.0),
        word.len() > 0,
        no_space(word),
        around.1.len() > 0 ==> text::is_space(around.1[0]),
{
    let cut = law_trim_start(s);
    let rest = lemma_up_to_space(text::trim_start(s));
    assert(s == cut + (word + rest));
    assert(cut + (word + rest) == cut + word + rest);
    (cut, rest)
}

proof fn lemma_up_to_space(s: Seq<char>) -> (rest: Seq<char>)
    ensures
        s == text::up_to_space(s) + rest,
        no_space(text::up_to_space(s)),
        rest.len() > 0 ==> text::is_space(rest[0]),
        s.len() > 0 && !text::is_space(s[0]) ==> text::up_to_space(s).len() > 0,
    decreases s.len(),
{
    if s.len() == 0 || text::is_space(s[0]) {
        assert(s == Seq::<char>::empty() + s);
        s
    } else {
        let rest = lemma_up_to_space(s.skip(1));
        assert(s == seq![s[0]] + s.skip(1));
        assert(s == text::up_to_space(s) + rest);
        rest
    }
}

/// A line ends at its line feed, without a carriage return right in front of that,
/// and the lines of the rest follow. Text without a line feed is one line, and
/// empty text is none.
pub proof fn law_lines(a: Seq<char>, b: Seq<char>)
    requires
        !a.contains('\n'),
    ensures
        text::lines(seq![]) == Seq::<Seq<char>>::empty(),
        a.len() > 0 ==> text::lines(a) == seq![a],
        a.len() == 0 || a.last() != '\r' ==> text::lines(a + seq!['\n'] + b) == seq![a]
            + text::lines(b),
        text::lines(a + seq!['\r', '\n'] + b) == seq![a] + text::lines(b),
{
    text::lemma_position(a, '\n');
    if text::position(a, '\n') < a.len() {
        assert(a.contains(a[text::position(a, '\n')]));
    }
    lemma_line_feed(a, b);
    let returned = a.push('\r');
    assert(!returned.contains('\n')) by {
        if returned.contains('\n') {
            let i = choose|i: int| 0 <= i < returned.len() && returned[i] == '\n';
            assert(a[i] == '\n');
        }
    }
    lemma_line_feed(returned, b);
    assert(a + seq!['\r', '\n'] + b == returned + seq!['\n'] + b);
    assert(returned.drop_last() == a);
}

proof fn lemma_line_feed(a: Seq<char>, b: Seq<char>)
    requires
        !a.contains('\n'),
    ensures
        text::lines(a + seq!['\n'] + b) == seq![text::without_cr(a)] + text::lines(b),
{
    let s = a + seq!['\n'] + b;
    text::lemma_position(s, '\n');
    let n = text::position(s, '\n');
    assert(s[a.len() as int] == '\n');
    if n < a.len() {
        assert(a[n] == s[n]);
    }
    assert(s.take(n) == a);
    assert(s.skip(n + 1) == b);
}

/// Joining puts the separator between neighbours and nowhere else.
pub proof fn law_join(a: Seq<Seq<char>>, b: Seq<Seq<char>>, separator: Seq<char>)
    requires
        a.len() > 0,
        b.len() > 0,
    ensures
        text::join(seq![], separator) == Seq::<char>::empty(),
        text::join(seq![a[0]], separator) == a[0],
        text::join(a + b, separator) == text::join(a, separator) + separator + text::join(
            b,
            separator,
        ),
    decreases b.len(),
{
    let all = a + b;
    assert(all.last() == b.last());
    if b.len() == 1 {
        assert(all.drop_last() == a);
    } else {
        let short = b.drop_last();
        law_join(a, short, separator);
        assert(all.drop_last() == a + short);
        let x = text::join(a, separator) + separator;
        text::lemma_add_assoc(x, text::join(short, separator), separator);
        text::lemma_add_assoc(x, text::join(short, separator) + separator, b.last());
    }
}

/// Concatenation adds nothing.
pub proof fn law_concat(a: Seq<Seq<char>>, b: Seq<Seq<char>>, part: Seq<char>)
    ensures
        text::concat(seq![]) == Seq::<char>::empty(),
        text::concat(seq![part]) == part,
        text::concat(a + b) == text::concat(a) + text::concat(b),
    decreases b.len(),
{
    reveal_with_fuel(text::concat, 2);
    assert(seq![part].drop_last() == Seq::<Seq<char>>::empty());
    if b.len() == 0 {
        assert(a + b == a);
    } else {
        law_concat(a, b.drop_last(), part);
        assert((a + b).drop_last() == a + b.drop_last());
        text::lemma_add_assoc(text::concat(a), text::concat(b.drop_last()), b.last());
    }
}

/// `n` zeros.
pub open spec fn zeros(n: nat) -> Seq<char> {
    Seq::new(n, |i: int| '0')
}

/// The digits are the ten of ASCII.
pub proof fn law_digits(c: char)
    ensures
        text::is_digit(c) <==> "0123456789"@.contains(c),
{
    reveal_strlit("0123456789");
    let all = "0123456789"@;
    if text::is_digit(c) {
        let n = c as u32 - 48;
        assert(all[n] as u32 == c as u32);
        assert(all[n] == c);
    }
}

/// A number is written in digits, without a zero in front unless it is zero, and
/// the digits stand for it.
pub proof fn law_decimal(n: nat)
    ensures
        text::all_digits(text::decimal(n)),
        text::digits_value(text::decimal(n)) == n,
        n > 0 ==> text::decimal(n)[0] != '0',
        n == 0 ==> text::decimal(n) == seq!['0'],
    decreases n,
{
    text::lemma_decimal_is_digits(n);
    reveal_with_fuel(text::digits_value, 2);
    if n >= 10 {
        law_decimal(n / 10);
        assert(text::decimal(n).drop_last() == text::decimal(n / 10));
        assert(text::decimal(n)[0] == text::decimal(n / 10)[0]);
    } else {
        assert(text::decimal(n).drop_last() == Seq::<char>::empty());
    }
}

/// Another digit behind a number multiplies it by ten and adds the digit.
pub proof fn law_digits_value(s: Seq<char>, d: nat)
    requires
        d < 10,
    ensures
        text::digits_value(s.push((48 + d) as char)) == 10 * text::digits_value(s) + d,
        text::digits_value(seq![]) == 0,
{
    assert(s.push((48 + d) as char).drop_last() == s);
}

proof fn lemma_digit(c: char)
    requires
        text::is_digit(c),
    ensures
        text::digit((c as u32 - 48) as nat) == c,
{
}

/// Digits are zeros and the number that they stand for, as it is written.
proof fn lemma_digits_are_decimal(s: Seq<char>) -> (k: nat)
    requires
        text::all_digits(s),
    ensures
        s == zeros(k) + text::decimal(text::digits_value(s)),
    decreases s.len(),
{
    reveal_with_fuel(text::digits_value, 2);
    let d = (s.last() as u32 - 48) as nat;
    assert(text::is_digit(s[s.len() - 1]));
    lemma_digit(s.last());
    if s.len() == 1 {
        assert(s.drop_last().len() == 0);
        assert(s == zeros(0) + text::decimal(d));
        0
    } else {
        let short = s.drop_last();
        assert forall|i: int| 0 <= i < short.len() implies text::is_digit(#[trigger] short[i]) by {
            assert(text::is_digit(s[i]));
        }
        let k = lemma_digits_are_decimal(short);
        let v = text::digits_value(short);
        assert(s == short.push(s.last()));
        if v > 0 {
            assert((v * 10 + d) / 10 == v && (v * 10 + d) % 10 == d);
            assert(text::decimal(v * 10 + d) == text::decimal(v).push(text::digit(d)));
            assert(s == zeros(k) + text::decimal(text::digits_value(s)));
            k
        } else {
            assert(short == zeros(k + 1));
            assert(s == zeros(k + 1) + text::decimal(d));
            k + 1
        }
    }
}

proof fn lemma_zeros_in_front(k: nat, s: Seq<char>)
    ensures
        text::digits_value(zeros(k) + s) == text::digits_value(s),
    decreases s.len(), k,
{
    if s.len() > 0 {
        lemma_zeros_in_front(k, s.drop_last());
        assert((zeros(k) + s).drop_last() == zeros(k) + s.drop_last());
    } else if k > 0 {
        lemma_zeros_in_front((k - 1) as nat, s);
        assert((zeros(k) + s).drop_last() == zeros((k - 1) as nat) + s);
    } else {
        assert(zeros(k) + s == s);
    }
}

/// A number is read from what it is written as, with zeros in front or none and
/// with a plus sign in front of those or none.
pub proof fn law_written_numbers_are_read(n: nat, k: nat)
    requires
        n <= usize::MAX,
    ensures
        text::parse_usize(text::decimal(n)) == Some(n as usize),
        text::parse_usize(zeros(k) + text::decimal(n)) == Some(n as usize),
        text::parse_usize("+"@ + (zeros(k) + text::decimal(n))) == Some(n as usize),
{
    reveal_strlit("+");
    let digits = zeros(k) + text::decimal(n);
    law_decimal(n);
    lemma_zeros_in_front(k, text::decimal(n));
    assert(text::is_digit(text::decimal(n)[0]));
    assert forall|i: int| 0 <= i < digits.len() implies text::is_digit(#[trigger] digits[i]) by {
        if i >= k {
            assert(digits[i] == text::decimal(n)[i - k]);
        }
    }
    assert(text::is_digit(digits[0]));
    assert(text::without_plus(digits) == digits);
    assert(text::without_plus(text::decimal(n)) == text::decimal(n));
    assert(("+"@ + digits).skip(1) == digits);
}

/// A number is read from nothing else.
pub proof fn law_only_written_numbers_are_read(s: Seq<char>) -> (k: nat)
    ensures
        text::parse_usize(s) matches Some(n) ==> s == zeros(k) + text::decimal(n as nat) || s
            == "+"@ + (zeros(k) + text::decimal(n as nat)),
{
    reveal_strlit("+");
    if text::parse_usize(s) is Some {
        let digits = text::without_plus(s);
        let k = lemma_digits_are_decimal(digits);
        if s.len() > 0 && s[0] == '+' {
            assert(s == "+"@ + digits);
        }
        k
    } else {
        0
    }
}

/// Padding keeps the text and puts spaces behind it, up to the width and no further.
pub proof fn law_pad(s: Seq<char>, width: nat)
    ensures
        text::pad_to(s, width).len() == if s.len() < width {
            width
        } else {
            s.len()
        },
        forall|i: int| 0 <= i < s.len() ==> #[trigger] text::pad_to(s, width)[i] == s[i],
        forall|i: int| s.len() <= i < width ==> #[trigger] text::pad_to(s, width)[i] == ' ',
{
}

/// Each line is shown behind three spaces, in order.
pub proof fn law_indented(a: Seq<char>, b: Seq<char>)
    requires
        !a.contains('\n'),
    ensures
        text::indented(seq![]) == Seq::<char>::empty(),
        a.len() > 0 ==> text::indented(a) == seq![' ', ' ', ' '] + a + seq!['\n'],
        a.len() == 0 || a.last() != '\r' ==> text::indented(a + seq!['\n'] + b) == seq![
            ' ',
            ' ',
            ' ',
        ] + a + seq!['\n'] + text::indented(b),
{
    reveal_strlit("   ");
    reveal_strlit("\n");
    assert("   "@ == seq![' ', ' ', ' ']);
    assert("\n"@ == seq!['\n']);
    law_lines(a, b);
    let f = |line: Seq<char>| "   "@ + line + "\n"@;
    assert(Seq::<Seq<char>>::empty().map_values(f) == Seq::<Seq<char>>::empty());
    assert(seq![a].map_values(f) == seq![f(a)]);
    law_concat(seq![f(a)], text::lines(b).map_values(f), f(a));
    assert((seq![a] + text::lines(b)).map_values(f) == seq![f(a)] + text::lines(b).map_values(f));
}

/// An escape character, an opening bracket, `parameters` and `letter`.
pub open spec fn control_sequence(parameters: Seq<char>, letter: char) -> Seq<char> {
    seq!['\u{1b}', '['] + parameters + seq![letter]
}

/// The parameters are digits and semicolons, and the letter is one of ASCII.
pub open spec fn makes_control_sequence(parameters: Seq<char>, letter: char) -> bool {
    &&& forall|i: int|
        0 <= i < parameters.len() ==> (48 <= (#[trigger] parameters[i]) as u32 <= 57
            || parameters[i] == ';')
    &&& 65 <= letter as u32 <= 90 || 97 <= letter as u32 <= 122
}

/// A control sequence is stripped as a whole.
pub proof fn law_control_sequences_are_stripped(
    parameters: Seq<char>,
    letter: char,
    rest: Seq<char>,
)
    requires
        makes_control_sequence(parameters, letter),
    ensures
        text::strip_ansi(control_sequence(parameters, letter) + rest) == text::strip_ansi(rest),
{
    let s = control_sequence(parameters, letter) + rest;
    let m = parameters.len() as int;
    let behind = s.skip(2);
    text::lemma_parameter_len(behind);
    let n = text::parameter_len(behind);
    assert(behind[m] == letter);
    if n < m {
        assert(behind[n] == parameters[n]);
    }
    if n > m {
        assert(text::is_parameter(behind[m]));
    }
    assert(s.skip(3 + m) == rest);
}

/// Any other character stays.
pub proof fn law_other_characters_stay(c: char, rest: Seq<char>)
    requires
        forall|parameters: Seq<char>, letter: char, behind: Seq<char>|
            makes_control_sequence(parameters, letter) ==> seq![c] + rest != #[trigger] (
            control_sequence(parameters, letter) + behind),
    ensures
        text::strip_ansi(seq![c] + rest) == seq![c] + text::strip_ansi(rest),
        text::strip_ansi(seq![]) == Seq::<char>::empty(),
{
    let s = seq![c] + rest;
    assert(s.skip(1) == rest);
    let n = text::parameter_len(s.skip(2));
    text::lemma_parameter_len(s.skip(2));
    if text::control_len(s) > 0 {
        let parameters = s.skip(2).take(n);
        let letter = s[2 + n];
        assert forall|i: int| 0 <= i < parameters.len() implies (48 <= (
        #[trigger] parameters[i]) as u32 <= 57 || parameters[i] == ';') by {
            assert(text::is_parameter(s.skip(2)[i]));
        }
        assert(makes_control_sequence(parameters, letter));
        assert(s == control_sequence(parameters, letter) + s.skip(3 + n));
    }
}

} // verus!
