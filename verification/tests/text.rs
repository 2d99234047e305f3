use aster::text::affix::{
    contains, ends_with, is_blank, starts_with, strip_prefix, strip_suffix, trim, trim_end,
    trim_end_of, trim_start, trim_start_of,
};
use aster::text::cut::{truncate, truncate_head};
use aster::text::number::{decimal, pad_left, pad_right, parse_unsigned};
use aster::text::order::{comes_before, order_by_key, sort_by_key};
use aster::text::path::path_join;
use aster::text::pieces::{join, lines, replace, split, split_once, split_once_str, to_lower, words};
use aster::text::utf8::{byte_len, fit_prefix, suffix_from};
use aster::tools::memory::debug_quote;

#[test]
fn trimming_agrees_with_std() {
    for s in ["", "  ", " a b ", "\t\na\u{a0}", "é ", "\u{2003}x\u{3000}"] {
        assert_eq!(trim(s), s.trim());
        assert_eq!(trim_start(s), s.trim_start());
        assert_eq!(trim_end(s), s.trim_end());
        assert_eq!(is_blank(s), s.trim().is_empty());
    }
    assert_eq!(trim_end_of("http://a//", "/"), "http://a");
    assert_eq!(trim_start_of("--a-", "-"), "a-");
}

#[test]
fn prefixes_and_suffixes_agree_with_std() {
    for (s, p) in [("abc", "ab"), ("abc", "abc"), ("abc", ""), ("", "a"), ("aab", "ab")] {
        assert_eq!(starts_with(s, p), s.starts_with(p));
        assert_eq!(ends_with(s, p), s.ends_with(p));
        assert_eq!(contains(s, p), s.contains(p));
        assert_eq!(strip_prefix(s, p).as_deref(), s.strip_prefix(p));
        assert_eq!(strip_suffix(s, p).as_deref(), s.strip_suffix(p));
    }
}

#[test]
fn splitting_agrees_with_std() {
    for s in ["", "a", "a\nb", "a\r\nb\n", "\n\n", "a\rb", "x\r"] {
        let expect: Vec<String> = s.lines().map(str::to_string).collect();
        assert_eq!(lines(s), expect);
        let expect: Vec<String> = s.split('\n').map(str::to_string).collect();
        assert_eq!(split(s, '\n'), expect);
        let expect: Vec<String> = s.split_whitespace().map(str::to_string).collect();
        assert_eq!(words(s), expect);
    }
    assert_eq!(split_once("a:b:c", ':'), Some(("a".to_string(), "b:c".to_string())));
    assert_eq!(split_once("abc", ':'), None);
    assert_eq!(split_once_str("a://b", "://"), Some(("a".to_string(), "b".to_string())));
    assert_eq!(replace("aXbXX", "X", "yy"), "ayybyyyy");
    assert_eq!(join(&vec!["a".to_string(), "b".to_string()], ", "), "a, b");
    assert_eq!(to_lower("AbÉ"), "abÉ");
}

#[test]
fn numbers_read_back() {
    for n in [0u64, 7, 10, 4096, u64::MAX] {
        assert_eq!(decimal(n), n.to_string());
        assert_eq!(parse_unsigned(&decimal(n), u64::MAX), Some(n));
    }
    assert_eq!(parse_unsigned("+5", 100), Some(5));
    assert_eq!(parse_unsigned("-5", 100), None);
    assert_eq!(parse_unsigned("", 100), None);
    assert_eq!(parse_unsigned("101", 100), None);
    assert_eq!(parse_unsigned("18446744073709551616", u64::MAX), None);
    assert_eq!(pad_right("ab", 4), "ab  ");
    assert_eq!(pad_left("ab", 4), "  ab");
    assert_eq!(pad_right("abcdef", 4), "abcdef");
}

#[test]
fn sorting_is_by_code_point_and_stable() {
    let list = vec![
        ("b".to_string(), "1".to_string()),
        ("a".to_string(), "2".to_string()),
        ("b".to_string(), "0".to_string()),
        ("B".to_string(), "3".to_string()),
    ];
    let sorted = sort_by_key(&list);
    let keys: Vec<(&str, &str)> = sorted.iter().map(|(a, b)| (a.as_str(), b.as_str())).collect();
    assert_eq!(keys, vec![("B", "3"), ("a", "2"), ("b", "1"), ("b", "0")]);
    assert!(comes_before("a", "ab"));
    assert!(!comes_before("a", "a"));
    let order = order_by_key(&vec!["z".to_string(), "a".to_string()]);
    assert_eq!(order, vec![("a".to_string(), 1), ("z".to_string(), 0)]);
}

#[test]
fn cutting_keeps_whole_characters() {
    assert_eq!(byte_len("aé"), 3);
    assert_eq!(fit_prefix("aéb", 2), "a");
    assert_eq!(fit_prefix("aéb", 3), "aé");
    assert_eq!(suffix_from("aéb", 2), "b");
    assert_eq!(truncate("short", 10), "short");
    let cut = truncate(&"x".repeat(100), 10);
    assert!(cut.starts_with("xxxxxxxxxx"));
    assert_ne!(cut.len(), 100);
    let cut = truncate_head(&format!("{}end", "x".repeat(100)), 10);
    assert!(cut.ends_with("xxxxxxxend"));
}

#[test]
fn paths_join_as_the_platform_does() {
    assert_eq!(path_join("/a", "b"), "/a/b");
    assert_eq!(path_join("/a/", "b"), "/a/b");
}

#[test]
fn debug_text_quotes_and_escapes() {
    assert_eq!(debug_quote("a\"b\n"), "\"a\\\"b\\n\"");
}
