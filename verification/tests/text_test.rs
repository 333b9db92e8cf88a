use arperge::number::{parse_unsigned, push_decimal};
use arperge::path::file_name;
use arperge::text::{chars_of, is_whitespace, replace_chars, string_of, trim_chars};

#[test]
fn parse_unsigned_follows_std_parse() {
    let inputs = [
        "", "+", "-", "0", "7", "+7", "-7", "0012", "42", "4 2", " 42", "42 ", "243.438005",
        "4294967295", "4294967296", "18446744073709551615", "18446744073709551616", "++1", "1+",
        "١٢", "99999999999999999999999",
    ];
    for s in inputs {
        assert_eq!(parse_unsigned(s, u32::MAX as u64), s.parse::<u32>().ok().map(|v| v as u64), "u32 {s:?}");
        assert_eq!(parse_unsigned(s, u64::MAX), s.parse::<u64>().ok(), "u64 {s:?}");
    }
}

#[test]
fn parse_unsigned_respects_the_bound() {
    assert_eq!(parse_unsigned("5", 4), None);
    assert_eq!(parse_unsigned("4", 4), Some(4));
    assert_eq!(parse_unsigned("0", 0), Some(0));
}

#[test]
fn decimal_matches_to_string() {
    for n in [0u64, 1, 9, 10, 11, 99, 100, 192, 4294967295, 18446744073709551615] {
        let mut v = Vec::new();
        push_decimal(&mut v, n);
        assert_eq!(string_of(&v), n.to_string());
        assert_eq!(parse_unsigned(&n.to_string(), u64::MAX), Some(n));
    }
}

#[test]
fn replace_matches_std_replace() {
    let cases = [
        ("rock and roll", "and", "&"),
        ("aaaa", "aa", "b"),
        ("fefeatat", "feat", ""),
        ("remastered remaster", "remaster", ""),
        ("", "x", "y"),
        ("héllo héllo", "é", "e"),
        ("abc", "abcd", "z"),
    ];
    for (s, pat, rep) in cases {
        let r = replace_chars(&chars_of(s), &chars_of(pat), &chars_of(rep));
        assert_eq!(string_of(&r), s.replace(pat, rep), "{s:?} {pat:?} {rep:?}");
    }
}

#[test]
fn trim_matches_std_trim() {
    for s in ["", "  ", " aac ", "\taac\n", "\u{a0}mp3\u{3000}", "a b", "x"] {
        assert_eq!(string_of(&trim_chars(&chars_of(s))), s.trim(), "{s:?}");
    }
}

#[test]
fn file_name_matches_std_path() {
    let paths = [
        "./data/import/ato.m4a", "ato.m4a", "/usr/bin/", "tmp/foo.txt", "foo.txt/.", "foo.txt/.//",
        "foo.txt/..", "/", "", ".", "..", "./", "a//b", "a/./b", "/..", "a/../b", "...", "./.",
        "/a", "a/", "x/./", ".hidden", "a/.b/.",
    ];
    for p in paths {
        let expected = std::path::Path::new(p).file_name().map(|n| n.to_str().unwrap().to_owned());
        assert_eq!(file_name(p), expected, "{p:?}");
    }
}

#[test]
fn is_whitespace_matches_std() {
    for u in 0u32..=0x10ffff {
        if let Some(c) = char::from_u32(u) {
            assert_eq!(is_whitespace(c), c.is_whitespace(), "U+{u:04X}");
        }
    }
}
