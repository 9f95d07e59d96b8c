use rustyz::text::{
    count_occurrences, i64_decimal, parse_i32, parse_i64, parse_u64, same_text, sort_texts, split_chars,
    text_less, trim, u64_decimal,
};

#[test]
fn decimal_numbers() {
    assert_eq!(u64_decimal(0), "0");
    assert_eq!(u64_decimal(1234567), "1234567");
    assert_eq!(u64_decimal(u64::MAX), "18446744073709551615");
    assert_eq!(i64_decimal(-42), "-42");
    assert_eq!(i64_decimal(i64::MIN), "-9223372036854775808");
    assert_eq!(i64_decimal(7), "7");
}

#[test]
fn parsing_integers_like_std() {
    assert_eq!(parse_i32("42"), Some(42));
    assert_eq!(parse_i32("-7"), Some(-7));
    assert_eq!(parse_i32("+5"), Some(5));
    assert_eq!(parse_i32("2147483647"), Some(i32::MAX));
    assert_eq!(parse_i32("2147483648"), None);
    assert_eq!(parse_i32("-2147483648"), Some(i32::MIN));
    assert_eq!(parse_i32("abc"), None);
    assert_eq!(parse_i32(""), None);
    assert_eq!(parse_i32("-"), None);
    assert_eq!(parse_i32(" 1"), None);
    assert_eq!(parse_i64("-9223372036854775808"), Some(i64::MIN));
    assert_eq!(parse_i64("9223372036854775808"), None);
    assert_eq!(parse_u64("18446744073709551615"), Some(u64::MAX));
    assert_eq!(parse_u64("18446744073709551616"), None);
    assert_eq!(parse_u64("-1"), None);
    assert_eq!(parse_u64("+12"), Some(12));
    for s in ["0", "12", "-3", "+9", "x1", "99999999999", "", "1_0"] {
        assert_eq!(parse_i32(s), s.parse::<i32>().ok(), "{s}");
    }
}

#[test]
fn splitting_and_counting() {
    assert_eq!(split_chars("playtime:next:12", ':'), vec!["playtime", "next", "12"]);
    assert_eq!(split_chars("", ':'), vec![""]);
    assert_eq!(split_chars("a::b:", ':'), vec!["a", "", "b", ""]);
    assert_eq!(count_occurrences("a b c", ' '), 2);
    assert_eq!(count_occurrences("", ' '), 0);
    assert!(same_text("abc", "abc"));
    assert!(!same_text("abc", "abd"));
}

#[test]
fn trimming_unicode_white_space() {
    assert_eq!(trim("  hi there \n"), "hi there");
    assert_eq!(trim("\u{3000}x\u{a0}"), "x");
    assert_eq!(trim("   "), "");
    assert_eq!(trim("a"), "a");
    for s in [" a b ", "\t\u{2028}z\u{85}", "plain", "\u{200b}x"] {
        assert_eq!(trim(s), s.trim(), "{s:?}");
    }
}

#[test]
fn text_order_and_sorting() {
    assert!(text_less("a", "b"));
    assert!(text_less("a", "ab"));
    assert!(!text_less("b", "ab"));
    assert!(!text_less("x", "x"));
    let sorted = sort_texts(vec!["b".to_string(), "a".to_string(), "ab".to_string(), "\u{e9}".to_string(), "Z".to_string()]);
    let mut expected = vec!["b".to_string(), "a".to_string(), "ab".to_string(), "\u{e9}".to_string(), "Z".to_string()];
    expected.sort();
    assert_eq!(sorted, expected);
}
