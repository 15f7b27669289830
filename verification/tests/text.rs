use openansys_agent::clip::{char_width, clip_bytes, preview_text, truncate_chars};
use openansys_agent::number::{decimal, format_count, parse_u64, parse_usize, two_digits};
use openansys_agent::order::{compare_path, compare_text, newest, reverse, Rank};
use openansys_agent::text::{
    char_is_space, chars_contain_any, contains, is_blank, join, lower_chars, replace_char, same_text,
    split_lines, split_words, starts_with, strip_prefix, to_chars, to_lower, trim, trim_end_of,
    trim_of, trim_start_of, upper_chars, window, CharClass,
};

fn every_char() -> Vec<char> {
    (0..=0x10ffff_u32).filter_map(char::from_u32).collect()
}

#[test]
fn white_space_is_that_of_unicode() {
    for c in every_char() {
        assert_eq!(char_is_space(c), c.is_whitespace(), "{:?}", c);
    }
}

#[test]
fn widths_are_those_of_utf8() {
    for c in every_char() {
        assert_eq!(char_width(c), c.len_utf8(), "{:?}", c);
    }
}

#[test]
fn case_changes_only_in_ascii() {
    let text = "aZ09 ß Éé\u{212a} {[`@";
    assert_eq!(to_lower(text), text.to_ascii_lowercase());
    assert_eq!(
        upper_chars(text).into_iter().collect::<String>(),
        text.to_ascii_uppercase()
    );
    assert_eq!(
        lower_chars(text).into_iter().collect::<String>(),
        text.to_ascii_lowercase()
    );
}

#[test]
fn trims_like_the_standard_library() {
    for text in ["", " ", "\u{3000}a b\u{2028}\n", "x", "\ta\t", "\u{200b}z"] {
        assert_eq!(trim(text), text.trim());
        assert_eq!(is_blank(text), text.trim().is_empty());
    }
    assert_eq!(trim_of("\"\"a\"b\"", CharClass::Only('"')), "a\"b");
    assert_eq!(trim_start_of("abc\ndef", CharClass::Except('\n')), "\ndef");
    assert_eq!(trim_start_of("abc", CharClass::Except('\n')), "");
    assert_eq!(trim_end_of("a``````", "```"), "a");
    assert_eq!(trim_end_of("a`````", "```"), "a``");
    assert_eq!(trim_end_of("a", ""), "a");
}

#[test]
fn trimming_twice_is_trimming_once() {
    for text in ["  a  ", "", "\n\n", "b"] {
        assert_eq!(trim(&trim(text)), trim(text));
    }
}

#[test]
fn splits_lines_like_the_standard_library() {
    for text in [
        "", "\n", "a", "a\n", "a\r\nb\r", "\r\n\r\n", "a\n\nb", "a\r\r\nb", "é\n漢字\r\n", "\r",
    ] {
        let expected: Vec<String> = text.lines().map(|line| line.to_string()).collect();
        assert_eq!(split_lines(text), expected, "{:?}", text);
    }
}

#[test]
fn splits_words_like_the_standard_library() {
    for text in ["", "  ", "a", " a  b\tc\n", "\u{a0}x\u{3000}y", "one two"] {
        let expected: Vec<String> = text.split_whitespace().map(|w| w.to_string()).collect();
        assert_eq!(split_words(text), expected, "{:?}", text);
    }
}

#[test]
fn searches_text() {
    assert!(contains("abcabd", "abd"));
    assert!(!contains("abcab", "abd"));
    assert!(contains("a", ""));
    assert!(contains("", ""));
    assert!(!contains("", "a"));
    assert!(starts_with("abc", "ab"));
    assert!(!starts_with("a", "ab"));
    assert_eq!(strip_prefix("name: x", "name:"), Some(" x".to_string()));
    assert_eq!(strip_prefix("nam", "name:"), None);
    assert!(same_text("é", "é"));
    assert!(!same_text("é", "e"));
    assert!(chars_contain_any(&to_chars("xyz"), &["a", "yz"]));
    assert!(!chars_contain_any(&to_chars("xyz"), &["a", "b"]));
}

#[test]
fn builds_text_character_by_character() {
    assert_eq!(window(&to_chars("añb漢"), 1, 4), "ñb漢");
    assert_eq!(replace_char("a\\b\\", '\\', '/'), "a/b/");
    assert_eq!(join(&vec!["a".to_string(), "".to_string(), "b".to_string()], ", "), "a, , b");
    assert_eq!(join(&Vec::new(), ", "), "");
}

#[test]
fn cuts_text() {
    assert_eq!(truncate_chars("abcdef", 3), "abc...");
    assert_eq!(truncate_chars("abc", 3), "abc");
    assert_eq!(truncate_chars("", 0), "");
    assert_eq!(preview_text(" a \n b  c ", 100), "a b c");
    assert_eq!(preview_text("abcd", 2), "ab…");
    assert_eq!(preview_text("  \n", 5), "(empty)");
}

#[test]
fn clips_at_bytes() {
    assert_eq!(clip_bytes("abcdef", 4, "!"), Some("abcd!".to_string()));
    assert_eq!(clip_bytes("abcd", 4, "!"), Some("abcd".to_string()));
    assert_eq!(clip_bytes("aé漢b", 3, "!"), Some("aé!".to_string()));
    assert_eq!(clip_bytes("aé漢b", 4, "!"), None);
    assert_eq!(clip_bytes("aé漢b", 2, "!"), None);
    assert_eq!(clip_bytes("aé漢b", 7, "!"), Some("aé漢b".to_string()));
}

#[test]
fn writes_and_reads_numbers() {
    assert_eq!(decimal(0), "0");
    assert_eq!(decimal(u128::MAX), u128::MAX.to_string());
    assert_eq!(two_digits(7), "07");
    assert_eq!(two_digits(123), "123");
    for text in ["", "+", "0", "007", "+5", "-1", " 1", "18446744073709551615", "18446744073709551616", "1x"] {
        assert_eq!(parse_u64(text), text.parse::<u64>().ok(), "{:?}", text);
        assert_eq!(parse_usize(text), text.parse::<usize>().ok(), "{:?}", text);
    }
    assert_eq!(parse_u64(&decimal(987_654_321)), Some(987_654_321));
}

#[test]
fn groups_digits() {
    assert_eq!(format_count(0), "0");
    assert_eq!(format_count(999), "999");
    assert_eq!(format_count(1_000), "1_000");
    assert_eq!(format_count(131_072), "131_072");
    assert_eq!(format_count(u64::MAX), "18_446_744_073_709_551_615");
}

#[test]
fn compares_texts_and_paths() {
    assert!(matches!(compare_text("a", "b"), Rank::Before));
    assert!(matches!(compare_text("a", "a"), Rank::Same));
    assert!(matches!(compare_text("b", "ab"), Rank::After));
    let p = |parts: &[&str]| parts.iter().map(|x| x.to_string()).collect::<Vec<String>>();
    assert!(matches!(compare_path(&p(&["a", "b"]), &p(&["a"])), Rank::After));
    assert!(matches!(compare_path(&p(&["a", "z"]), &p(&["b"])), Rank::Before));
}

#[test]
fn picks_the_first_of_the_newest() {
    assert_eq!(newest(&vec![true, true, true, false], &vec![1, 5, 5, 9]), Some(1));
    assert_eq!(newest(&vec![false], &vec![1]), None);
    assert_eq!(newest(&vec![true], &vec![-3]), Some(0));
}

#[test]
fn reversal_turns_the_order_round() {
    assert_eq!(reverse(vec![1, 2, 3]), vec![3, 2, 1]);
    assert_eq!(reverse(Vec::<u8>::new()), Vec::<u8>::new());
}
