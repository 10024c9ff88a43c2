use brownie::order::sort;
use brownie::text::{
    char_is_space, chars_of, comes_before, contains, ends_with, format_signed, format_unsigned,
    join, parse_unsigned, replace_char, same_text, starts_with, to_lowercase, trim,
};

#[test]
fn trim_removes_whitespace_at_both_ends_only() {
    assert_eq!(trim("  a b \t\n"), "a b");
    assert_eq!(trim("\u{a0}x\u{3000}"), "x");
    assert_eq!(trim(""), "");
    assert_eq!(trim(" \n "), "");
    assert_eq!(trim("word"), "word");
}

#[test]
fn texts_are_ordered_by_code_point() {
    assert!(comes_before("a", "b"));
    assert!(comes_before("a", "ab"));
    assert!(comes_before("", "a"));
    assert!(!comes_before("a", "a"));
    assert!(!comes_before("b", "a"));
    assert!(comes_before("Z", "a"));
    assert!(comes_before("z", "é"));
    assert!(comes_before("\u{ffff}", "\u{10000}"));
    assert_eq!(comes_before("block-10", "block-9"), "block-10" < "block-9");
    assert!(same_text("née", "née"));
    assert!(!same_text("a", "A"));
    assert!(!same_text("a", "ab"));
}

#[test]
fn sorting_is_stable_and_ascending() {
    let sorted = sort(vec!["b".to_string(), "a".to_string(), "c".to_string(), "a".to_string()]);
    assert_eq!(sorted, vec!["a", "a", "b", "c"]);
    assert_eq!(sort(Vec::<String>::new()), Vec::<String>::new());
}

#[test]
fn numbers_are_written_in_decimal() {
    assert_eq!(format_unsigned(0), "0");
    assert_eq!(format_unsigned(7), "7");
    assert_eq!(format_unsigned(10), "10");
    assert_eq!(format_unsigned(1205), "1205");
    assert_eq!(format_unsigned(u128::MAX), u128::MAX.to_string());
    assert_eq!(format_signed(0), "0");
    assert_eq!(format_signed(-1), "-1");
    assert_eq!(format_signed(i64::MIN), i64::MIN.to_string());
    assert_eq!(format_signed(i64::MAX), i64::MAX.to_string());
}

#[test]
fn numbers_are_read_from_decimal() {
    assert_eq!(parse_unsigned("0"), Some(0));
    assert_eq!(parse_unsigned("007"), Some(7));
    assert_eq!(parse_unsigned("+12"), Some(12));
    assert_eq!(parse_unsigned("18446744073709551615"), Some(u64::MAX));
    assert_eq!(parse_unsigned("18446744073709551616"), None);
    assert_eq!(parse_unsigned("99999999999999999999999"), None);
    assert_eq!(parse_unsigned(""), None);
    assert_eq!(parse_unsigned("+"), None);
    assert_eq!(parse_unsigned("-1"), None);
    assert_eq!(parse_unsigned("1 "), None);
    assert_eq!(parse_unsigned("++1"), None);
    assert_eq!(parse_unsigned("١"), None);
}

#[test]
fn helpers_match_the_standard_library() {
    assert_eq!(join(&vec!["a".to_string(), "b".to_string(), "c".to_string()], ", "), "a, b, c");
    assert_eq!(join(&vec!["only".to_string()], ","), "only");
    assert_eq!(join(&Vec::new(), ","), "");
    assert!(contains("show the files", "the f"));
    assert!(contains("abc", ""));
    assert!(contains("", ""));
    assert!(!contains("abc", "abcd"));
    assert!(!contains("abc", "ca"));
    assert!(contains("abc", "c"));
    assert!(starts_with("what files", "what"));
    assert!(!starts_with("wha", "what"));
    assert_eq!(to_lowercase("ÀBC Def"), "Àbc def");
    assert_eq!(replace_char("a_b_c", '_', ' '), "a b c");
    assert_eq!(chars_of("héllo"), vec!['h', 'é', 'l', 'l', 'o']);
}

#[test]
fn whitespace_is_what_the_standard_library_takes_for_it() {
    let mut spaces = 0;
    for code in 0..=0x10_ffffu32 {
        if let Some(c) = char::from_u32(code) {
            assert_eq!(char_is_space(c), c.is_whitespace(), "U+{code:04X}");
            if char_is_space(c) {
                spaces += 1;
            }
        }
    }
    assert_eq!(spaces, 25);
    assert!(char_is_space(' ') && char_is_space('\t') && char_is_space('\n'));
    assert!(char_is_space('\u{a0}') && char_is_space('\u{3000}') && char_is_space('\u{85}'));
    assert!(!char_is_space('a') && !char_is_space('\u{200b}') && !char_is_space('\u{180e}'));
}

#[test]
fn trimming_takes_every_kind_of_whitespace_from_both_ends() {
    assert_eq!(trim("\u{2003}\t code review \u{a0}\r\n"), "code review");
    assert_eq!(trim("\u{200b}x\u{200b}"), "\u{200b}x\u{200b}");
    assert_eq!(trim(" \u{3000} "), "");
    for text in ["", " ", "a", "  a b  ", "\u{1680}x\u{205f}", "\u{feff}y "] {
        assert_eq!(trim(text), text.trim(), "{text:?}");
    }
}

#[test]
fn a_text_ends_with_its_suffixes() {
    assert!(ends_with("a.json", ".json"));
    assert!(ends_with(".json", ".json"));
    assert!(ends_with("abc", ""));
    assert!(!ends_with("json", ".json"));
    assert!(!ends_with("a.json ", ".json"));
}
