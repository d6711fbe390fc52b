use formsy_cli::numbers::{i64_decimal, parse_u32, u64_decimal};
use formsy_cli::text::{
    debug_string_list, join_strings, split_lines, strip_leading_char, text_eq, text_is_blank,
    to_ascii_lowercase, trim_text,
};

#[test]
fn trimming_and_blankness_follow_unicode_whitespace() {
    assert_eq!(trim_text("  a b \t\n"), "a b");
    assert_eq!(trim_text("\u{3000}x\u{a0}"), "x");
    assert_eq!(trim_text(" \u{200b}x"), "\u{200b}x");
    assert_eq!(trim_text("   "), "");
    assert!(text_is_blank(""));
    assert!(text_is_blank(" \t\r\n\u{2028}"));
    assert!(!text_is_blank(" x "));
}

#[test]
fn case_and_leading_characters() {
    assert_eq!(to_ascii_lowercase("MiXeD.ÄB"), "mixed.Äb");
    assert_eq!(strip_leading_char("...md", '.'), "md");
    assert_eq!(strip_leading_char("md.", '.'), "md.");
    assert!(text_eq("abc", "abc"));
    assert!(!text_eq("abc", "abd"));
    assert!(!text_eq("abc", "ab"));
}

#[test]
fn decimal_rendering() {
    assert_eq!(u64_decimal(0), "0");
    assert_eq!(u64_decimal(10), "10");
    assert_eq!(u64_decimal(u64::MAX), u64::MAX.to_string());
    assert_eq!(i64_decimal(-42), "-42");
    assert_eq!(i64_decimal(i64::MIN), i64::MIN.to_string());
    assert_eq!(i64_decimal(i64::MAX), i64::MAX.to_string());
}

#[test]
fn parsing_matches_the_standard_parser() {
    for text in ["0", "7", "+7", "007", "4294967295", "4294967296", "", "+", "-0", "1_000", " 1", "99999999999999999999"] {
        assert_eq!(parse_u32(text), text.parse::<u32>().ok(), "parsing {text:?}");
    }
}

#[test]
fn rendering_then_parsing_gives_the_number_back() {
    for n in [0u32, 1, 9, 10, 4000, 65535, u32::MAX] {
        assert_eq!(parse_u32(&u64_decimal(n as u64)), Some(n));
    }
}

#[test]
fn lines_follow_str_lines() {
    for text in ["", "a", "a\n", "a\n\nb", "\n", "a\r\nb\r\n", "a\rb", "x\r", "\r\n\r\n"] {
        let expected: Vec<String> = text.lines().map(str::to_string).collect();
        assert_eq!(split_lines(text), expected, "lines of {text:?}");
    }
}

#[test]
fn joining_and_debug_lists() {
    let parts = vec!["a".to_string(), "".to_string(), "c".to_string()];
    assert_eq!(join_strings(&parts, ", "), "a, , c");
    assert_eq!(join_strings(&Vec::new(), "-"), "");
    let items = vec!["py".to_string(), "t\"s".to_string()];
    assert_eq!(debug_string_list(&items), format!("{:?}", items));
    assert_eq!(debug_string_list(&Vec::new()), "[]");
}
