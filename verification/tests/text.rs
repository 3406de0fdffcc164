use netspd::text::{
    ascii_lowercase, contains_char, copy_range, ends_with, find_any, find_whitespace,
    is_whitespace, prefix_before, push_all, slices_equal, starts_with, strip_leading,
    to_ascii_lower, trim_bounds, trim_start_index,
    blank, chars_of, contains_slice, decimal_of, equal_ignore_ascii_case, find, lex_less,
    lines_of, parse_hex_u64, parse_u64, rfind, split_fields, split_first_word, string_of,
    to_lowercase, trimmed,
};

fn cs(s: &str) -> Vec<char> {
    s.chars().collect()
}

fn strings(v: Vec<Vec<char>>) -> Vec<String> {
    v.into_iter().map(|c| c.into_iter().collect()).collect()
}

#[test]
fn chars_round_trip() {
    assert_eq!(chars_of("héllo"), vec!['h', 'é', 'l', 'l', 'o']);
    assert_eq!(string_of(&['a', 'ß']), "aß");
    assert_eq!(string_of(&chars_of("x y")), "x y");
}

#[test]
fn lowercase_wrapper() {
    assert_eq!(to_lowercase("LibreSpeed"), "librespeed");
    assert_eq!(to_lowercase("ÀB"), "àb");
}

#[test]
fn parses_decimal_like_str_parse() {
    for s in ["0", "42", "+7", "18446744073709551615", "18446744073709551616", "", "+", "-1", "1 ", "٣"] {
        assert_eq!(parse_u64(&cs(s)), s.parse::<u64>().ok(), "{s:?}");
    }
}

#[test]
fn parses_hex_like_from_str_radix() {
    for s in ["0", "ff", "FF", "+1a", "ffffffffffffffff", "10000000000000000", "", "g", "-1"] {
        assert_eq!(parse_hex_u64(&cs(s)), u64::from_str_radix(s, 16).ok(), "{s:?}");
    }
}

#[test]
fn trim_and_blank() {
    assert_eq!(trimmed(&cs("  a b \t\n")), cs("a b"));
    assert_eq!(trimmed(&cs("\u{3000}x\u{a0}")), cs("x"));
    assert!(blank(&cs(" \t\r\n")));
    assert!(!blank(&cs(" x ")));
    for s in ["", "  ", " a ", "\u{2028}b\u{85}"] {
        assert_eq!(trimmed(&cs(s)), cs(s.trim()));
    }
}

#[test]
fn lines_like_str_lines() {
    for s in ["", "a", "a\n", "a\r\nb", "a\n\nb\r\n", "\r\n", "x\ry"] {
        let expected: Vec<String> = s.lines().map(str::to_owned).collect();
        assert_eq!(strings(lines_of(&cs(s))), expected, "{s:?}");
    }
}

#[test]
fn split_like_str_split() {
    for s in ["", "a", "a&b", "&&", "x=1&y=2&"] {
        let expected: Vec<String> = s.split('&').map(str::to_owned).collect();
        assert_eq!(strings(split_fields(&cs(s), '&')), expected, "{s:?}");
    }
}

#[test]
fn first_word_like_split_whitespace() {
    let (w, rest) = split_first_word(&cs("  GET /x HTTP/1.1"));
    assert_eq!(w, cs("GET"));
    assert_eq!(rest, cs(" /x HTTP/1.1"));
    let (w, rest) = split_first_word(&cs("   "));
    assert!(w.is_empty() && rest.is_empty());
}

#[test]
fn searching() {
    assert_eq!(find(&cs("a?b?c"), '?'), 1);
    assert_eq!(find(&cs("abc"), '?'), 3);
    assert_eq!(rfind(&cs("a/b/c"), '/'), Some(3));
    assert_eq!(rfind(&cs("abc"), '/'), None);
    assert!(contains_slice(&cs("hello world"), &cs("o w")));
    assert!(!contains_slice(&cs("hello"), &cs("hello!")));
    assert!(contains_slice(&cs("x"), &cs("")));
}

#[test]
fn ascii_case_and_order() {
    assert!(equal_ignore_ascii_case(&cs("Content-Length"), &cs("content-length")));
    assert!(!equal_ignore_ascii_case(&cs("É"), &cs("é")));
    assert!(lex_less(&cs("a"), &cs("b")));
    assert!(lex_less(&cs("ab"), &cs("abc")));
    assert!(!lex_less(&cs("b"), &cs("b")));
    assert!(lex_less(&cs("Z"), &cs("a")));
}

#[test]
fn decimal_digits() {
    assert_eq!(decimal_of(0), cs("0"));
    assert_eq!(decimal_of(1000), cs("1000"));
    assert_eq!(decimal_of(u64::MAX), cs("18446744073709551615"));
}

#[test]
fn small_helpers() {
    assert_eq!(copy_range(&cs("abcdef"), 1, 4), cs("bcd"));
    let mut v = cs("ab");
    push_all(&mut v, &cs("cd"));
    assert_eq!(v, cs("abcd"));
    assert_eq!(netspd::text::concat(&cs("ab"), &cs("")), cs("ab"));
    assert!(starts_with(&cs("https://x"), &cs("https://")));
    assert!(!starts_with(&cs("http"), &cs("https")));
    assert!(ends_with(&cs("a.php"), &cs(".php")));
    assert!(!ends_with(&cs("php"), &cs(".php")));
    assert_eq!(find_any(&cs("host/p?q"), '/', '?'), 4);
    assert_eq!(find_any(&cs("host?q/p"), '/', '?'), 4);
    assert_eq!(find_any(&cs("host"), '/', '?'), 4);
    assert!(contains_char(&cs("a?b"), '?'));
    assert_eq!(trim_bounds(&cs("  ab ")), (2, 4));
    assert_eq!(strip_leading(&cs("//x/"), '/'), cs("x/"));
    assert_eq!(prefix_before(&cs("a;b;c"), ';'), cs("a"));
    assert_eq!(ascii_lowercase(&cs("MiXeD É")), cs("mixed É"));
    assert_eq!(to_ascii_lower('Q'), 'q');
    assert_eq!(to_ascii_lower('é'), 'é');
    assert!(is_whitespace('\u{3000}'));
    assert!(!is_whitespace('x'));
    assert_eq!(find_whitespace(&cs("ab cd")), 2);
    assert_eq!(trim_start_index(&cs("  x")), 2);
    assert!(slices_equal(&cs("abc"), &cs("abc")));
    assert!(!slices_equal(&cs("abc"), &cs("abd")));
}
