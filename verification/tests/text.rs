use discord_to_insta::strmap::{StrMap, StrSet};
use discord_to_insta::text::{
    chars_of, ends_with, join, less, normalize_newlines, parse_u64, print_i64, print_u64, same,
    starts_with, text_of, trim, white,
};
use std::collections::VecDeque;

fn trimmed(s: &str) -> String {
    text_of(trim(&chars_of(s)))
}

#[test]
fn white_space_is_that_of_the_standard_library() {
    for n in 0..=0x10ffffu32 {
        if let Some(c) = char::from_u32(n) {
            assert_eq!(white(c), c.is_whitespace(), "{n:x}");
        }
    }
}

#[test]
fn trimming_is_that_of_the_standard_library() {
    for s in ["", " ", "a", "\u{3000}a b\r\n", "\u{2003}\u{85}x\u{a0}", "no", "\n\n"] {
        assert_eq!(trimmed(s), s.trim());
    }
}

#[test]
fn numbers_are_printed_as_by_the_standard_library() {
    for n in [0u64, 9, 10, 99, 100, 1234567890, u64::MAX] {
        assert_eq!(print_u64(n), n.to_string());
    }
    for n in [0i64, -1, -10, 42, i64::MAX, i64::MIN] {
        assert_eq!(print_i64(n), n.to_string());
    }
}

#[test]
fn numbers_are_read_as_by_the_standard_library() {
    for s in [
        "", "+", "-1", "0", "007", "+5", "++5", "12a", " 1", "18446744073709551615",
        "18446744073709551616", "99999999999999999999999", "٣", "1_000",
    ] {
        assert_eq!(parse_u64(s), s.parse::<u64>().ok(), "{s}");
    }
}

#[test]
fn printed_numbers_are_read_back() {
    for n in [0u64, 7, 10, 981806074233507880, u64::MAX] {
        assert_eq!(parse_u64(&print_u64(n)), Some(n));
    }
}

#[test]
fn strings_are_ordered_as_by_the_standard_library() {
    let all = ["", "a", "ab", "b", "é", "z", "✅", "🤔", "A"];
    for a in all {
        for b in all {
            assert_eq!(less(&chars_of(a), &chars_of(b)), a < b, "{a} {b}");
            assert_eq!(same(a, b), a == b);
        }
    }
}

#[test]
fn prefixes_and_suffixes() {
    let s = chars_of("feed_20.png");
    assert!(starts_with(&s, &chars_of("feed")));
    assert!(!starts_with(&s, &chars_of("Feed")));
    assert!(ends_with(&s, &chars_of("_20.png")));
    assert!(!ends_with(&chars_of("png"), &chars_of(".png")));
    assert!(ends_with(&s, &chars_of("")));
}

#[test]
fn joining_puts_the_separator_between() {
    let v = |items: &[&str]| items.iter().map(|s| s.to_string()).collect::<Vec<String>>();
    assert_eq!(join(&v(&[]), ", "), "");
    assert_eq!(join(&v(&["a"]), ", "), "a");
    assert_eq!(join(&v(&["a", "", "b"]), ", "), "a, , b");
}

#[test]
fn carriage_returns_before_line_feeds_go() {
    assert_eq!(text_of(&normalize_newlines(&chars_of("a\r\nb\rc\r\r\n"))), "a\nb\rc\r\n");
}

#[test]
fn map_keeps_the_last_value_for_a_key() {
    let mut m: StrMap<u32> = StrMap::new();
    assert!(m.is_empty());
    assert_eq!(m.insert("a".to_string(), 1), None);
    assert_eq!(m.insert("b".to_string(), 2), None);
    assert_eq!(m.insert("a".to_string(), 3), Some(1));
    assert_eq!(m.get("a"), Some(&3));
    assert!(m.contains_key("b"));
    assert_eq!(m.entries().len(), 2);
    assert_eq!(m.remove("a"), Some(3));
    assert_eq!(m.remove("a"), None);
    assert_eq!(m.get("a"), None);
    assert_eq!(m.get("b"), Some(&2));
}

#[test]
fn set_counts_each_member_once() {
    let mut s = StrSet::new();
    assert!(s.insert("a".to_string()));
    assert!(!s.insert("a".to_string()));
    assert!(s.insert("b".to_string()));
    assert_eq!(s.len(), 2);
    assert_eq!(s.items().len(), 2);
    assert!(s.contains("b"));
    assert!(!s.contains("c"));
}

#[test]
fn log_keeps_the_most_recent_lines() {
    let mut log: VecDeque<String> = VecDeque::new();
    for n in 0..7 {
        discord_to_insta::log::push(&mut log, 3, n.to_string());
        assert!(log.len() <= 3);
        assert_eq!(log.back(), Some(&n.to_string()));
    }
    assert_eq!(log, VecDeque::from(["4".to_string(), "5".to_string(), "6".to_string()]));
}
