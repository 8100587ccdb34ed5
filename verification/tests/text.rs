use rtk_js::chars;

fn cs(s: &str) -> Vec<char> {
    s.chars().collect()
}

fn st(s: &[char]) -> String {
    s.iter().collect()
}

#[test]
fn lines_agree_with_std() {
    for s in [
        "", "a", "\n", "a\n", "a\nb", "a\r\nb\r\n", "a\r", "\r\n", "a\r\r\nb", "\n\n", "é\nü\r",
    ] {
        let v = cs(s);
        let ours: Vec<String> = chars::lines(&v).iter().map(|l| st(l)).collect();
        let std: Vec<String> = s.lines().map(|l| l.to_string()).collect();
        assert_eq!(ours, std, "{s:?}");
    }
}

#[test]
fn trimming_agrees_with_std() {
    for s in ["", " ", "a", " a ", "\t\u{a0}a b\u{3000}\n", "\u{200b}a", "\u{1680}x\u{2028}", "\u{85}"] {
        let v = cs(s);
        assert_eq!(st(chars::trim(&v)), s.trim());
        assert_eq!(st(chars::trim_start(&v)), s.trim_start());
        assert_eq!(st(chars::trim_end(&v)), s.trim_end());
        assert_eq!(
            chars::first_word(&v).map(st),
            s.split_whitespace().next().map(|w| w.to_string())
        );
    }
}

#[test]
fn white_space_agrees_with_std() {
    for n in 0..0x3100u32 {
        if let Some(c) = char::from_u32(n) {
            assert_eq!(chars::is_space(c), c.is_whitespace(), "{n:x}");
        }
    }
}

#[test]
fn searching_agrees_with_std() {
    for s in ["", "a", "ab", "aab", "node_modules/x", "aXb"] {
        for p in ["", "a", "b", "ab", "aab", "modules/", "xyz"] {
            let v = cs(s);
            assert_eq!(chars::contains(&v, p), s.contains(p));
            assert_eq!(chars::starts_with(&v, p), s.starts_with(p));
            assert_eq!(chars::ends_with(&v, p), s.ends_with(p));
            assert_eq!(chars::same(s, p), s == p);
        }
    }
}

#[test]
fn numbers_are_read_as_std_reads_them() {
    for s in [
        "", "+", "-1", "0", "007", "+5", "++5", "12a", "1_000", " 1", "18446744073709551615",
        "18446744073709551616", "99999999999999999999999999", "٣",
    ] {
        assert_eq!(chars::parse_usize(&cs(s)), s.parse::<usize>().ok(), "{s:?}");
    }
}

#[test]
fn numbers_are_written_in_decimal() {
    for n in [0u64, 7, 10, 99, 100, 12480, u64::MAX] {
        let mut out = String::from("x");
        chars::push_decimal(&mut out, n);
        assert_eq!(out, format!("x{n}"));
    }
}

#[test]
fn padding_agrees_with_format() {
    for s in ["", "video:", "exactly12chr", "longer than twelve", "日本:"] {
        assert_eq!(chars::pad_to(s, 12), format!("{:12}", s));
    }
}

#[test]
fn joining_and_indenting() {
    let (a, b) = (cs("a"), cs("b"));
    assert_eq!(chars::join(&[&a, &b], ", "), "a, b");
    assert_eq!(chars::join(&[], ", "), "");
    let mut out = String::from("x");
    chars::push_indented(&mut out, &cs("one\r\ntwo"));
    assert_eq!(out, "x   one\n   two\n");
}

#[test]
fn colours_are_stripped() {
    let strip = |s: &str| st(&chars::strip_ansi(&cs(s)));
    assert_eq!(strip("\u{1b}[31mred\u{1b}[0m"), "red");
    assert_eq!(strip("\u{1b}[1;32;40mx\u{1b}[Ky"), "xy");
    assert_eq!(strip("plain [31m"), "plain [31m");
    assert_eq!(strip("\u{1b}[31"), "\u{1b}[31");
    assert_eq!(strip("\u{1b}[?25h"), "\u{1b}[?25h");
    assert_eq!(strip("\u{1b}"), "\u{1b}");
}
