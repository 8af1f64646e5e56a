use std::path::Path;

use qoget::path::{join, with_extension};
use qoget::text::{
    chars_of, contains, count_digits, drop_suffixes, drop_whitespace, eq_ignoring_case,
    find_first, has_suffix, is_space, matches_at, push_decimal, push_decimal_padded2,
    replace_all, same_chars, skip_prefixes, skip_whitespace, slice_of, str_eq,
    truncate_to_bytes,
};

fn c(s: &str) -> Vec<char> {
    s.chars().collect()
}

fn text(v: &[char]) -> String {
    v.iter().collect()
}

#[test]
fn characters_are_collected_in_order() {
    assert_eq!(chars_of("héllo"), vec!['h', 'é', 'l', 'l', 'o']);
    assert!(chars_of("").is_empty());
}

#[test]
fn numbers_are_written_in_decimal() {
    for n in [0u64, 7, 9, 10, 99, 100, 12345, u64::MAX] {
        let mut out = c("x");
        push_decimal(&mut out, n);
        assert_eq!(text(&out), format!("x{n}"));
        let mut out = Vec::new();
        push_decimal_padded2(&mut out, n);
        assert_eq!(text(&out), format!("{n:02}"));
    }
}

#[test]
fn white_space_is_what_the_standard_library_takes_for_it() {
    for code in 0u32..0x3100 {
        if let Some(ch) = char::from_u32(code) {
            assert_eq!(is_space(ch), ch.is_whitespace(), "U+{code:04X}");
        }
    }
    assert!(!is_space('\u{FEFF}'));
    assert!(!is_space('\u{200B}'));
}

#[test]
fn trimming_agrees_with_the_standard_library() {
    for s in ["", " ", "  a b  ", "\t\nx\r\n", "\u{3000}y\u{a0}", "none", " \u{2003} "] {
        let v = c(s);
        let start = skip_whitespace(&v, 0, v.len());
        let end = drop_whitespace(&v, start, v.len());
        assert_eq!(text(&v[start..end]), s.trim(), "{s:?}");
        assert_eq!(text(&v[start..]), s.trim_start(), "{s:?}");
        let only_end = drop_whitespace(&v, 0, v.len());
        assert_eq!(text(&v[..only_end]), s.trim_end(), "{s:?}");
    }
}

#[test]
fn repeated_prefixes_and_suffixes_are_stripped() {
    for (s, p) in [("...dots", "."), ("ababx", "ab"), ("aaa", "aa"), ("x", "xy"), ("", "a"), ("abc", "")] {
        let v = c(s);
        let k = skip_prefixes(&v, &c(p), 0, v.len());
        let expected = if p.is_empty() { s } else { s.trim_start_matches(p) };
        assert_eq!(text(&v[k..]), expected, "{s:?} {p:?}");
    }
    for (s, p) in [("a.m4a.m4a", ".m4a"), ("xabab", "ab"), ("aaa", "aa"), ("x", "yx"), ("", "a"), ("abc", "")] {
        let v = c(s);
        let k = drop_suffixes(&v, &c(p), 0, v.len());
        let expected = if p.is_empty() { s } else { s.trim_end_matches(p) };
        assert_eq!(text(&v[..k]), expected, "{s:?} {p:?}");
    }
}

#[test]
fn replacing_agrees_with_the_standard_library() {
    for (s, from, to) in [
        ("a&amp;b&amp;", "&amp;", "&"),
        ("aaaa", "aa", "b"),
        ("aaa", "aa", "b"),
        ("abc", "x", "y"),
        ("", "x", "y"),
        ("xxx", "x", ""),
        ("{{id}} {{id}}", "{{id}}", "{{id}}{{id}}"),
    ] {
        assert_eq!(text(&replace_all(&c(s), &c(from), &c(to))), s.replace(from, to), "{s:?}");
    }
    assert_eq!(text(&replace_all(&c("abc"), &c(""), &c("x"))), "abc");
}

#[test]
fn searching_agrees_with_the_standard_library() {
    for (s, p) in [("application/zip", "zip"), ("zip", "zip"), ("zi", "zip"), ("", ""), ("a", ""), ("", "a"), ("azipb", "zip"), ("zzip", "zip")] {
        assert_eq!(contains(&c(s), &c(p)), s.contains(p), "{s:?} {p:?}");
        assert_eq!(has_suffix(&c(s), &c(p)), s.ends_with(p), "{s:?} {p:?}");
        assert_eq!(matches_at(&c(s), &c(p), 0), s.starts_with(p), "{s:?} {p:?}");
    }
    assert!(matches_at(&c("abc"), &c("bc"), 1));
    assert!(!matches_at(&c("abc"), &c("bc"), 2));
    assert!(!matches_at(&c("abc"), &c(""), 4));
    assert!(matches_at(&c("abc"), &c(""), 3));
    assert_eq!(find_first(&c("a?b?c"), '?'), 1);
    assert_eq!(find_first(&c("abc"), '?'), 3);
    assert_eq!(find_first(&c(""), '?'), 0);
    assert_eq!(count_digits(&c("123abc4"), 0, 7), 3);
    assert_eq!(count_digits(&c("123abc4"), 1, 2), 1);
    assert_eq!(count_digits(&c("abc"), 0, 3), 0);
}

#[test]
fn comparisons() {
    assert!(same_chars(&c("abc"), &c("abc")));
    assert!(!same_chars(&c("abc"), &c("abd")));
    assert!(!same_chars(&c("abc"), &c("ab")));
    assert!(str_eq("x", "x") && !str_eq("x", "y"));
    assert!(eq_ignoring_case(&c("QoBuZ"), &c("qobuz")));
    assert!(!eq_ignoring_case(&c("qobuz"), &c("qobus")));
    assert!(!eq_ignoring_case(&c("\u{212A}"), &c("k")));
    assert_eq!(slice_of(&c("abcdef"), 2, 4), c("cd"));
    assert_eq!(slice_of(&c("abcdef"), 3, 3), c(""));
}

#[test]
fn truncation_stops_at_a_character_boundary() {
    for (s, limit) in [("aé€😀", 0usize), ("aé€😀", 1), ("aé€😀", 2), ("aé€😀", 3), ("aé€😀", 5), ("aé€😀", 6), ("aé€😀", 9), ("aé€😀", 10), ("aé€😀", 100)] {
        let mut v = c(s);
        truncate_to_bytes(&mut v, limit);
        let mut end = limit.min(s.len());
        while !s.is_char_boundary(end) {
            end -= 1;
        }
        assert_eq!(text(&v), &s[..end], "{s:?} {limit}");
    }
}

#[test]
fn paths_are_joined_and_their_extensions_replaced() {
    for (base, segment) in [("/music", "a"), ("/music/", "a"), ("", "a"), ("/music", ""), ("/music", "/abs"), ("rel", "x/y"), ("/", "a")] {
        assert_eq!(
            text(&join(&c(base), &c(segment))),
            Path::new(base).join(segment).to_str().unwrap(),
            "{base:?} {segment:?}"
        );
    }
    for (path, ext) in [
        ("/m/a/01 - x.mp3", "flac"),
        ("/m/a.b/noext", "flac"),
        ("/m/a/.hidden", "tmp"),
        ("/m/a/x.tar.gz", "mp3.tmp"),
        ("x.mp3", ""),
        ("x", ""),
        ("/m/a/x.", "y"),
        ("a/b.c/d.e", "f"),
    ] {
        assert_eq!(
            text(&with_extension(&c(path), &c(ext))),
            Path::new(path).with_extension(ext).to_str().unwrap(),
            "{path:?} {ext:?}"
        );
    }
    // a path without a last segment stays as it is
    assert_eq!(text(&with_extension(&c("/m/a/"), &c("x"))), "/m/a/");
    assert_eq!(text(&with_extension(&c(""), &c("x"))), "");
}
