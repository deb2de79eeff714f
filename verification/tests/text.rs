use jev_copilot::text::{
    before, characters, decimal, join, lines, parse_u16, parse_u64, same, same_ignoring_case,
    split_once, stands_before, starts_with, trim, trim_back, trim_both, trim_front, trim_prefixes,
    Class,
};

#[test]
fn trimming_takes_unicode_white_space() {
    for s in ["", " ", "a", "  a b\t\r\n", "\u{3000}中 文\u{a0}\u{2003}", "\u{200b}x", "\u{85}\u{1680}y"] {
        assert_eq!(trim(s), s.trim());
    }
}

#[test]
fn every_character_is_trimmed_as_in_the_standard_library() {
    for c in '\u{0}'..='\u{30ff}' {
        let s = format!("{c}x{c}");
        assert_eq!(trim(&s), s.trim(), "{:x}", c as u32);
    }
}

#[test]
fn trimming_a_character() {
    assert_eq!(trim_back("https://a/b///", &Class::Only('/')), "https://a/b");
    assert_eq!(trim_back("///", &Class::Only('/')), "");
    assert_eq!(trim_front("``a`", &Class::Only('`')), "a`");
    assert_eq!(trim_both("``a`b```", &Class::Only('`')), "a`b");
}

#[test]
fn trimming_prefixes() {
    assert_eq!(trim_prefixes("```json```json{}", "```json"), "{}");
    assert_eq!(trim_prefixes("```js", "```json"), "```js");
    assert_eq!(trim_prefixes("abc", ""), "abc");
}

#[test]
fn splitting() {
    assert_eq!(split_once("a=b=c", '='), Some(("a", "b=c")));
    assert_eq!(split_once("=", '='), Some(("", "")));
    assert_eq!(split_once("名=值", '='), Some(("名", "值")));
    assert_eq!(split_once("abc", '='), None);
    assert_eq!(before("/api?x?y", '?'), "/api");
    assert_eq!(before("/api", '?'), "/api");
    assert_eq!(before("?x", '?'), "");
}

#[test]
fn lines_are_those_of_the_standard_library() {
    for s in ["", "a", "a\n", "a\n\n", "\n", "a\r\nb\r", "\r\n", "a\n\rb\r\n\r\n中"] {
        let expected: Vec<String> = s.lines().map(|line| line.to_string()).collect();
        assert_eq!(lines(s), expected);
    }
}

#[test]
fn comparing() {
    assert!(same("中a", "中a"));
    assert!(!same("a", "A"));
    assert!(same_ignoring_case("X-Jev-Key", "x-jEV-kEY"));
    assert!(!same_ignoring_case("X-Jev-Key", "X-Jev-Keys"));
    assert!(!same_ignoring_case("É", "é"));
    assert!(!same_ignoring_case("@", "`"));
    assert!(starts_with("data:image/png", "data:image/"));
    assert!(!starts_with("data:", "data:image/"));
}

#[test]
fn the_order_is_that_of_strings() {
    let words = ["", "a", "aa", "ab", "b", "B", "draft_1", "draft_10", "draft_2", "中", "é", "\u{10000}", "\u{ffff}"];
    for a in words {
        for b in words {
            assert_eq!(stands_before(a, b), a < b, "{a} {b}");
        }
    }
}

#[test]
fn decimals() {
    for n in [0, 7, 9, 10, 401, 20000, u64::MAX] {
        assert_eq!(decimal(n), n.to_string());
        assert_eq!(parse_u64(&decimal(n)), Some(n));
    }
}

#[test]
fn numbers_are_read_as_in_the_standard_library() {
    for s in ["", "+", "-", "0", "-0", "+7", "++7", "007", "65535", "65536", "1a", " 1", "1 ", "１",
        "18446744073709551615", "18446744073709551616", "99999999999999999999999"] {
        assert_eq!(parse_u64(s), s.parse::<u64>().ok(), "{s}");
        assert_eq!(parse_u16(s), s.parse::<u16>().ok(), "{s}");
    }
}

#[test]
fn joining() {
    assert_eq!(join("第 ", "1"), "第 1");
    assert_eq!(characters("a中"), vec!['a', '中']);
}
