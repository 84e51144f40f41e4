use zh_sources::text::{
    concatenate, contains, i32_to_string, i64_to_string, join, last_piece, parse_i64, replace, split, split_join,
    starts_with, text_after, text_before, text_eq, trim, trim_each, trim_nonempty,
};

fn strings(v: &[&str]) -> Vec<String> {
    v.iter().map(|s| s.to_string()).collect()
}

#[test]
fn replace_removes_every_occurrence() {
    assert_eq!(replace("/comic/detail/123", "/comic/detail/", ""), "123");
    assert_eq!(replace("a b  c", " ", ""), "abc");
    assert_eq!(replace("aaa", "aa", "x"), "xa");
    assert_eq!(replace("abc", "zz", "y"), "abc");
}

#[test]
fn replace_with_empty_pattern_interleaves() {
    assert_eq!(replace("ab", "", "x"), "ab".replace("", "x"));
    assert_eq!(replace("", "", "x"), "x");
}

#[test]
fn trim_removes_unicode_whitespace() {
    assert_eq!(trim("  \t作者：甲 \n"), "作者：甲");
    assert_eq!(trim("\u{3000}x\u{a0}"), "x");
    assert_eq!(trim("   "), "");
    assert_eq!(trim(""), "");
}

#[test]
fn contains_and_starts_with() {
    assert!(contains("已完结", "完结"));
    assert!(!contains("连载", "完结"));
    assert!(contains("abc", ""));
    assert!(starts_with("https://x", "http"));
    assert!(!starts_with("//x", "http"));
    assert!(text_eq("会员专享", "会员专享"));
    assert!(!text_eq("会员", "会员专享"));
}

#[test]
fn split_matches_std() {
    assert_eq!(split("a/b//c", "/"), strings(&["a", "b", "", "c"]));
    assert_eq!(split("", "/"), strings(&[""]));
    assert_eq!(split("ab", ""), strings(&["", "a", "b", ""]));
    assert_eq!(split("x$qingtiandy$y", "$qingtiandy$"), strings(&["x", "y"]));
}

#[test]
fn last_piece_is_after_last_separator() {
    assert_eq!(last_piece("/manga/abc/123", "/"), "123");
    assert_eq!(last_piece("photos-index-aid-99.html", "-"), "99.html");
    assert_eq!(last_piece("plain", "/"), "plain");
    assert_eq!(last_piece("ends/", "/"), "");
}

#[test]
fn join_puts_separator_between() {
    assert_eq!(join(&strings(&["a", "b", "c"]), ", "), "a, b, c");
    assert_eq!(join(&strings(&["a"]), ", "), "a");
    assert_eq!(join(&Vec::new(), ", "), "");
}

#[test]
fn split_then_join_is_replace() {
    for (s, sep, j) in [("a b c", " ", ", "), ("x&&y", "&", "／"), ("none", "-", "+"), ("", "/", ",")] {
        assert_eq!(split_join(s, sep, j), replace(s, sep, j));
    }
}

#[test]
fn trim_lists() {
    assert_eq!(trim_nonempty(&strings(&[" a ", "  ", "", "b"])), strings(&["a", "b"]));
    assert_eq!(trim_each(&strings(&[" a ", "  "])), strings(&["a", ""]));
}

#[test]
fn decimal_formatting() {
    assert_eq!(i32_to_string(0), "0");
    assert_eq!(i32_to_string(12), "12");
    assert_eq!(i32_to_string(-7), "-7");
    assert_eq!(i32_to_string(i32::MIN), i32::MIN.to_string());
    assert_eq!(i64_to_string(i64::MIN), i64::MIN.to_string());
    assert_eq!(i64_to_string(i64::MAX), i64::MAX.to_string());
}

#[test]
fn parse_matches_std() {
    for s in ["0", "42", "+42", "-42", "007", "", "-", "+", "1a", " 1", "9223372036854775807",
        "9223372036854775808", "-9223372036854775808", "-9223372036854775809", "99999999999999999999999"] {
        assert_eq!(parse_i64(s), s.parse::<i64>().ok(), "input {:?}", s);
    }
}

#[test]
fn decimal_roundtrip_on_values() {
    for n in [0i64, 1, -1, 1700000000, i64::MIN, i64::MAX] {
        assert_eq!(parse_i64(&i64_to_string(n)), Some(n));
    }
}

#[test]
fn text_after_and_before() {
    assert_eq!(text_after("k=v;x", "="), Some("v;x".to_string()));
    assert_eq!(text_before("k=v;x", ";"), Some("k=v".to_string()));
    assert_eq!(text_after("abc", "z"), None);
    assert_eq!(text_before("abc", "z"), None);
    assert_eq!(concatenate("ab", "cd"), "abcd");
}
