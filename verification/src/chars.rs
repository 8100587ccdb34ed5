//! Text as the executable code holds it: slices of characters.

use vstd::prelude::*;
use vstd::slice::slice_subrange;
use crate::text;

verus! {

/// `String::push` of std, which puts one character behind the others.
pub assume_specification[ String::push ](s: &mut String, c: char)
    ensures
        final(s)@ == old(s)@.push(c),
;

/// The characters of `s`.
pub fn to_chars(s: &str) -> (r: Vec<char>)
    ensures
        r@ == s@,
{
    let mut r: Vec<char> = Vec::new();
    for c in it: s.chars()
        invariant
            it.seq() == s@,
            r@ == s@.take(it.index()),
    {
        r.push(c);
    }
    assert(s@.take(s@.len() as int) == s@);
    r
}

/// `out`, with `s` behind it.
pub fn push_chars(out: &mut String, s: &[char])
    ensures
        final(out)@ == old(out)@ + s@,
{
    let mut i: usize = 0;
    while i < s.len()
        invariant
            i <= s.len(),
            out@ == old(out)@ + s@.take(i as int),
        decreases s.len() - i,
    {
        out.push(s[i]);
        i += 1;
        assert(s@.take(i as int) == s@.take(i - 1).push(s@[i - 1]));
    }
    assert(s@.take(s@.len() as int) == s@);
}

/// The text that `s` spells.
pub fn to_text(s: &[char]) -> (r: String)
    ensures
        r@ == s@,
{
    let mut r = String::new();
    push_chars(&mut r, s);
    r
}

/// What the parts of `parts` spell.
pub open spec fn views(parts: Seq<&[char]>) -> Seq<Seq<char>> {
    parts.map_values(|part: &[char]| part@)
}

/// Whether `c` is white space.
pub fn is_space(c: char) -> (r: bool)
    ensures
        r == text::is_space(c),
{
    let n: u32 = c as u32;
    (0x09 <= n && n <= 0x0d) || n == 0x20 || n == 0x85 || n == 0xa0 || n == 0x1680 || (0x2000 <= n
        && n <= 0x200a) || n == 0x2028 || n == 0x2029 || n == 0x202f || n == 0x205f || n == 0x3000
}

/// `s` without the white space in front.
pub fn trim_start(s: &[char]) -> (r: &[char])
    ensures
        r@ == text::trim_start(s@),
{
    let mut i: usize = 0;
    assert(s@.skip(0) == s@);
    while i < s.len() && is_space(s[i])
        invariant
            i <= s.len(),
            text::trim_start(s@) == text::trim_start(s@.skip(i as int)),
        decreases s.len() - i,
    {
        assert(s@.skip(i as int).skip(1) == s@.skip(i + 1));
        i += 1;
    }
    slice_subrange(s, i, s.len())
}

/// `s` without the white space behind.
pub fn trim_end(s: &[char]) -> (r: &[char])
    ensures
        r@ == text::trim_end(s@),
{
    let mut n: usize = s.len();
    assert(s@.take(n as int) == s@);
    while n > 0 && is_space(s[n - 1])
        invariant
            n <= s.len(),
            text::trim_end(s@) == text::trim_end(s@.take(n as int)),
        decreases n,
    {
        assert(s@.take(n as int).drop_last() == s@.take(n - 1));
        n -= 1;
    }
    slice_subrange(s, 0, n)
}

/// `s` without the white space on either side.
pub fn trim(s: &[char]) -> (r: &[char])
    ensures
        r@ == text::trim(s@),
{
    trim_end(trim_start(s))
}

/// The first word of `s`, if it has one.
pub fn first_word(s: &[char]) -> (r: Option<&[char]>)
    ensures
        match r {
            Some(word) => text::first_word(s@) == Some(word@),
            None => text::first_word(s@) is None,
        },
{
    let rest = trim_start(s);
    if rest.len() == 0 {
        return None;
    }
    let mut n: usize = 0;
    assert(rest@.skip(0) == rest@);
    while n < rest.len() && !is_space(rest[n])
        invariant
            n <= rest.len(),
            text::up_to_space(rest@) == rest@.take(n as int) + text::up_to_space(
                rest@.skip(n as int),
            ),
        decreases rest.len() - n,
    {
        assert(rest@.skip(n as int).skip(1) == rest@.skip(n + 1));
        assert(rest@.take(n + 1) == rest@.take(n as int) + seq![rest@[n as int]]);
        n += 1;
    }
    assert(text::up_to_space(rest@) == rest@.take(n as int));
    Some(slice_subrange(rest, 0, n))
}

/// The lines of `s`.
pub fn lines<'a>(s: &'a [char]) -> (r: Vec<&'a [char]>)
    ensures
        views(r@) == text::lines(s@),
{
    let mut r: Vec<&'a [char]> = Vec::new();
    let mut start: usize = 0;
    assert(s@.skip(0) == s@);
    while start < s.len()
        invariant
            start <= s.len(),
            text::lines(s@) == views(r@) + text::lines(s@.skip(start as int)),
        decreases s.len() - start,
    {
        let ghost rest = s@.skip(start as int);
        let mut end: usize = start;
        assert(s@.skip(end as int) == rest);
        while end < s.len() && s[end] != '\n'
            invariant
                start <= end <= s.len(),
                rest == s@.skip(start as int),
                text::position(rest, '\n') == end - start + text::position(
                    s@.skip(end as int),
                    '\n',
                ),
            decreases s.len() - end,
        {
            assert(s@.skip(end as int).skip(1) == s@.skip(end + 1));
            end += 1;
        }
        let ghost before = r@;
        if end == s.len() {
            r.push(slice_subrange(s, start, end));
            assert(s@.subrange(start as int, end as int) == rest);
            assert(views(r@) == views(before) + seq![rest]);
            assert(s@.skip(end as int) == Seq::<char>::empty());
            start = end;
        } else {
            let mut stop: usize = end;
            if stop > start && s[stop - 1] == '\r' {
                stop -= 1;
            }
            r.push(slice_subrange(s, start, stop));
            assert(rest.take(end - start) == s@.subrange(start as int, end as int));
            assert(s@.subrange(start as int, stop as int) == text::without_cr(
                rest.take(end - start),
            ));
            assert(views(r@) == views(before) + seq![text::without_cr(rest.take(end - start))]);
            assert(rest.skip(end - start + 1) == s@.skip(end + 1));
            start = end + 1;
        }
    }
    assert(text::lines(s@) == views(r@));
    r
}

/// Whether `part` stands in `s` at `i`.
fn occurs_at(s: &[char], part: &[char], i: usize) -> (r: bool)
    ensures
        r == text::occurs_at(s@, part@, i as int),
{
    if part.len() > s.len() || i > s.len() - part.len() {
        return false;
    }
    let mut k: usize = 0;
    while k < part.len()
        invariant
            k <= part.len(),
            i + part.len() <= s.len(),
            forall|j: int| 0 <= j < k ==> s@[i + j] == part@[j],
        decreases part.len() - k,
    {
        if s[i + k] != part[k] {
            assert(s@.subrange(i as int, i + part@.len())[k as int] != part@[k as int]);
            return false;
        }
        k += 1;
    }
    assert(s@.subrange(i as int, i + part@.len()) == part@);
    true
}

/// Whether `s` starts with `prefix`.
pub fn starts_with(s: &[char], prefix: &str) -> (r: bool)
    ensures
        r == text::has_prefix(s@, prefix@),
{
    let p = to_chars(prefix);
    assert(p@.len() <= s@.len() ==> s@.take(p@.len() as int) == s@.subrange(0, p@.len() as int));
    occurs_at(s, p.as_slice(), 0)
}

/// Whether `s` ends with `suffix`.
pub fn ends_with(s: &[char], suffix: &str) -> (r: bool)
    ensures
        r == text::has_suffix(s@, suffix@),
{
    let p = to_chars(suffix);
    if p.len() > s.len() {
        return false;
    }
    let i: usize = s.len() - p.len();
    assert(s@.skip(i as int) == s@.subrange(i as int, i + p@.len()));
    occurs_at(s, p.as_slice(), i)
}

/// Whether `part` stands in `s`.
pub fn contains(s: &[char], part: &str) -> (r: bool)
    ensures
        r == text::contains(s@, part@),
{
    let p = to_chars(part);
    if p.len() > s.len() {
        return false;
    }
    let last: usize = s.len() - p.len();
    let mut i: usize = 0;
    while i <= last
        invariant
            last == s.len() - p.len(),
            i <= last + 1,
            p@ == part@,
            s.len() <= usize::MAX,
            forall|j: int| 0 <= j < i ==> !text::occurs_at(s@, part@, j),
        decreases last + 1 - i,
    {
        if occurs_at(s, p.as_slice(), i) {
            return true;
        }
        if i == last {
            return false;
        }
        i += 1;
    }
    false
}

/// Whether `a` and `b` spell the same text.
pub fn same(a: &str, b: &str) -> (r: bool)
    ensures
        r == (a@ == b@),
{
    let x = to_chars(a);
    let y = to_chars(b);
    if x.len() != y.len() {
        return false;
    }
    assert(x@.subrange(0, y@.len() as int) == x@);
    occurs_at(x.as_slice(), y.as_slice(), 0)
}

/// `parts` one behind the other, with `separator` between them.
pub fn join(parts: &[&[char]], separator: &str) -> (r: String)
    ensures
        r@ == text::join(views(parts@), separator@),
{
    let mut r = String::new();
    let mut i: usize = 0;
    while i < parts.len()
        invariant
            i <= parts.len(),
            r@ == text::join(views(parts@).take(i as int), separator@),
        decreases parts.len() - i,
    {
        if i > 0 {
            r.append(separator);
        }
        push_chars(&mut r, parts[i]);
        i += 1;
        assert(views(parts@).take(i as int).drop_last() == views(parts@).take(i - 1));
    }
    assert(views(parts@).take(i as int) == views(parts@));
    r
}

/// `out`, with `n` in decimal behind it.
pub fn push_decimal(out: &mut String, n: u64)
    ensures
        final(out)@ == old(out)@ + text::decimal(n as nat),
    decreases n,
{
    if n >= 10 {
        push_decimal(out, n / 10);
    }
    let c: char = (48u8 + (n % 10) as u8) as char;
    assert(c == text::digit((n % 10) as nat));
    out.push(c);
}

/// The number that `s` writes, if it writes one that fits.
pub fn parse_usize(s: &[char]) -> (r: Option<usize>)
    ensures
        r == text::parse_usize(s@),
{
    let start: usize = if s.len() > 0 && s[0] == '+' {
        1
    } else {
        0
    };
    let digits = slice_subrange(s, start, s.len());
    assert(digits@ == text::without_plus(s@));
    if digits.len() == 0 {
        return None;
    }
    let mut value: usize = 0;
    let mut i: usize = 0;
    while i < digits.len()
        invariant
            i <= digits.len(),
            digits@ == text::without_plus(s@),
            forall|j: int| 0 <= j < i ==> text::is_digit(digits@[j]),
            value == text::digits_value(digits@.take(i as int)),
        decreases digits.len() - i,
    {
        let n: u32 = digits[i] as u32;
        if n < 48 || n > 57 {
            assert(!text::is_digit(digits@[i as int]));
            return None;
        }
        let d: usize = (n - 48) as usize;
        proof {
            assert(digits@.take(i + 1).drop_last() == digits@.take(i as int));
            text::lemma_digits_value_prefix(digits@, i + 1);
        }
        if value > (usize::MAX - d) / 10 {
            return None;
        }
        value = value * 10 + d;
        i += 1;
    }
    assert(digits@.take(i as int) == digits@);
    Some(value)
}

/// `out`, with every line of `s` behind it, each after three spaces.
pub fn push_indented(out: &mut String, s: &[char])
    ensures
        final(out)@ == old(out)@ + text::indented(s@),
{
    let parts = lines(s);
    let ghost shown = text::lines(s@).map_values(|line: Seq<char>| "   "@ + line + "\n"@);
    let mut i: usize = 0;
    while i < parts.len()
        invariant
            i <= parts.len(),
            views(parts@) == text::lines(s@),
            shown == text::lines(s@).map_values(|line: Seq<char>| "   "@ + line + "\n"@),
            out@ == old(out)@ + text::concat(shown.take(i as int)),
        decreases parts.len() - i,
    {
        out.append("   ");
        push_chars(out, parts[i]);
        out.append("\n");
        i += 1;
        assert(shown.take(i as int).drop_last() == shown.take(i - 1));
        assert(views(parts@)[i - 1] == parts@[i - 1]@);
        assert(shown.take(i as int).last() == "   "@ + parts@[i - 1]@ + "\n"@);
    }
    assert(shown.take(i as int) == shown);
}

/// `s`, with spaces behind it up to `width` characters.
pub fn pad_to(s: &str, width: usize) -> (r: String)
    ensures
        r@ == text::pad_to(s@, width as nat),
{
    let mut r = s.to_owned();
    let mut n: usize = s.unicode_len();
    while n < width
        invariant
            r@.len() == n,
            s@.len() <= n,
            s@.len() < n ==> n <= width,
            r@ == s@ + Seq::new((n - s@.len()) as nat, |i: int| ' '),
        decreases width - n,
    {
        r.push(' ');
        n += 1;
    }
    r
}

/// `s` without the terminal control sequences that set colours and styles.
pub fn strip_ansi(s: &[char]) -> (r: Vec<char>)
    ensures
        r@ == text::strip_ansi(s@),
{
    let mut r: Vec<char> = Vec::new();
    let mut i: usize = 0;
    assert(s@.skip(0) == s@);
    while i < s.len()
        invariant
            i <= s.len(),
            text::strip_ansi(s@) == r@ + text::strip_ansi(s@.skip(i as int)),
        decreases s.len() - i,
    {
        let ghost rest = s@.skip(i as int);
        let n = control_len(slice_subrange(s, i, s.len()));
        if n > 0 {
            assert(rest.skip(n as int) == s@.skip(i + n));
            i += n;
        } else {
            r.push(s[i]);
            assert(rest.skip(1) == s@.skip(i + 1));
            i += 1;
        }
    }
    assert(text::strip_ansi(s@) == r@);
    r
}

/// The length of the terminal control sequence at the start of `s`, or zero.
fn control_len(s: &[char]) -> (r: usize)
    ensures
        r == text::control_len(s@),
        r <= s.len(),
{
    if s.len() < 2 || s[0] != '\u{1b}' || s[1] != '[' {
        return 0;
    }
    let ghost rest = s@.skip(2);
    let mut i: usize = 2;
    while i < s.len() && ((48 <= s[i] as u32 && s[i] as u32 <= 57) || s[i] == ';')
        invariant
            2 <= i <= s.len(),
            rest == s@.skip(2),
            text::parameter_len(rest) == i - 2 + text::parameter_len(s@.skip(i as int)),
        decreases s.len() - i,
    {
        assert(s@.skip(i as int).skip(1) == s@.skip(i + 1));
        i += 1;
    }
    assert(text::parameter_len(rest) == i - 2);
    if i == s.len() {
        return 0;
    }
    let n: u32 = s[i] as u32;
    if (65 <= n && n <= 90) || (97 <= n && n <= 122) {
        i + 1
    } else {
        0
    }
}

} // verus!
