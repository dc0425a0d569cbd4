use sonora::bytes::{be16, be32, be64, push_be32};
use sonora::lists::{first_places, set_places};
use sonora::text::{
    before, contains, copied, cut_last, ends_with, join, number_text, one_of, parse_number,
    place_of, same, same_maybe, split, split_once, starts_with, strip_back, strip_front, trim,
    white,
};

#[test]
fn splitting_and_joining_undo_each_other() {
    for text in ["", "a", "a;b", ";", "a;;b;", "ą;ż"] {
        let parts = split(text, ';');
        assert_eq!(join(&parts, ";"), text);
        assert_eq!(parts, text.split(';').collect::<Vec<_>>());
    }
}

#[test]
fn trimming_knows_every_white_space() {
    for text in ["", " ", "a", " a ", "\t\n a b\u{a0}\u{2003}", "\u{3000}x"] {
        assert_eq!(trim(text), text.trim());
    }
    for c in ['\u{9}', '\u{85}', '\u{1680}', '\u{200a}', '\u{200b}', '\u{feff}', 'x'] {
        assert_eq!(white(c), c.is_whitespace());
    }
}

#[test]
fn stripping_takes_every_one() {
    assert_eq!(strip_front("..a.", '.'), "a.");
    assert_eq!(strip_back("a..", '.'), "a");
    assert_eq!(strip_back("...", '.'), "");
}

#[test]
fn the_first_place_counts() {
    assert_eq!(place_of("banana", "an"), Some(1));
    assert_eq!(place_of("żaba", "ba"), Some(2));
    assert_eq!(place_of("a", "ab"), None);
    assert_eq!(place_of("a", ""), Some(0));
    assert!(contains("banana", "nan"));
    assert_eq!(
        split_once("a=b=c", "="),
        Some(("a".to_string(), "b=c".to_string()))
    );
    assert_eq!(split_once("abc", "="), None);
    assert_eq!(cut_last("a}b}c", '}'), Some("a}b".to_string()));
    assert_eq!(cut_last("abc", '}'), None);
    assert!(starts_with("file://x", "file://"));
    assert!(!starts_with("fil", "file"));
    assert!(ends_with("a.com", ".com"));
    assert!(!ends_with("com", ".com"));
}

#[test]
fn numbers_read_back() {
    for number in [0, 7, 10, 2557, u64::MAX] {
        assert_eq!(number_text(number), number.to_string());
        assert_eq!(parse_number(&number_text(number)), Some(number));
    }
    for text in ["", "x", "1x", "-1", "18446744073709551616"] {
        assert_eq!(parse_number(text), None);
        assert_eq!(text.parse::<u64>().ok(), None);
    }
    assert_eq!(parse_number("+5"), None);
    assert_eq!(parse_number("007"), Some(7));
}

#[test]
fn texts_are_ordered_by_their_characters() {
    for (left, right) in [("a", "b"), ("a", "ab"), ("Z", "a"), ("é", "z"), ("b", "b")] {
        assert_eq!(before(left, right), left < right);
        assert_eq!(before(right, left), right < left);
    }
    assert!(same("a", "a"));
    assert!(one_of("a", &vec!["b".to_string(), "a".to_string()]));
    let there = Some("x".to_string());
    assert!(same_maybe(&copied(&there), &there));
    assert!(!same_maybe(&None, &there));
}

#[test]
fn bytes_are_read_highest_first() {
    let data = [0x12, 0x34, 0x56, 0x78, 0x9a, 0xbc, 0xde, 0xf0];
    assert_eq!(be16(&data, 1), Some(0x3456));
    assert_eq!(be32(&data, 0), Some(0x1234_5678));
    assert_eq!(be64(&data, 0), Some(0x1234_5678_9abc_def0));
    assert_eq!(be16(&data, 7), None);
    assert_eq!(be32(&data, 5), None);
    assert_eq!(be64(&data, 1), None);
    assert_eq!(be32(&data, usize::MAX), None);
    let mut out = Vec::new();
    push_be32(&mut out, 0x0102_0304);
    assert_eq!(out, vec![1, 2, 3, 4]);
    assert_eq!(be32(&out, 0), Some(0x0102_0304));
}

#[test]
fn flags_are_listed_by_place() {
    let flags = vec![true, false, true, true];
    assert_eq!(set_places(&flags), vec![0, 2, 3]);
    assert_eq!(first_places(&flags, 2), vec![0, 2]);
}
