use cosmi_cal::text::{
    contains_text, decimal_string, eq_ignore_ascii_case, is_blank, is_white_space_char,
    signed_decimal_string, split_on_char, split_words, trim, truncate, utf8_len_exceeds,
};

#[test]
fn white_space_matches_std() {
    for u in 0..=0x10FFFFu32 {
        if let Some(c) = char::from_u32(u) {
            assert_eq!(is_white_space_char(c), c.is_whitespace(), "{u:x}");
        }
    }
}

#[test]
fn trim_and_blank_match_std() {
    for s in ["", "  ", "\u{3000}x\u{2029}", " a b ", "\t\nshow_surface\r\n", "x"] {
        assert_eq!(trim(s), s.trim());
        assert_eq!(is_blank(s), s.trim().is_empty());
    }
}

#[test]
fn words_match_split_whitespace() {
    for s in ["", "  ", "a", " a  b\tc\n", "0x03a00003  0 host cosmi-cal.cosmi-cal CosmiCal", "x\u{00A0}y"] {
        let expected: Vec<String> = s.split_whitespace().map(|w| w.to_string()).collect();
        assert_eq!(split_words(s), expected);
    }
}

#[test]
fn split_on_char_matches_split() {
    for s in ["", "\n", "a\nb", "a\nb\n", "\n\na"] {
        let expected: Vec<String> = s.split('\n').map(|w| w.to_string()).collect();
        assert_eq!(split_on_char(s, '\n'), expected);
    }
}

#[test]
fn contains_and_case_insensitive_equality() {
    assert!(contains_text("io.github.sixesandsevens.cosmical.cosmical", "cosmical"));
    assert!(contains_text("abc", ""));
    assert!(!contains_text("ab", "abc"));
    assert!(!contains_text("cosmi_cal", "cosmi-cal"));
    assert!(eq_ignore_ascii_case("CoSmI-cal", "cosmi-CAL"));
    assert!(!eq_ignore_ascii_case("cosmi-cal", "cosmi-cal "));
    assert!(!eq_ignore_ascii_case("É", "é"));
}

#[test]
fn decimal_text() {
    assert_eq!(decimal_string(0), "0");
    assert_eq!(decimal_string(7), "7");
    assert_eq!(decimal_string(1234567890), "1234567890");
    assert_eq!(decimal_string(u32::MAX), u32::MAX.to_string());
    assert_eq!(signed_decimal_string(-42), "-42");
    assert_eq!(signed_decimal_string(i32::MIN), i32::MIN.to_string());
    assert_eq!(signed_decimal_string(2024), "2024");
}

#[test]
fn truncate_counts_characters() {
    assert_eq!(truncate("hello", 5), "hello");
    assert_eq!(truncate("hello world", 5), "hello…");
    assert_eq!(truncate("héllo wörld", 7), "héllo w…");
    assert_eq!(truncate("", 0), "");
    assert_eq!(truncate("ab", 0), "…");
}

#[test]
fn utf8_length_limit() {
    assert!(!utf8_len_exceeds("abc", 3));
    assert!(utf8_len_exceeds("abcd", 3));
    assert!(utf8_len_exceeds("é", 1));
    assert!(!utf8_len_exceeds("é", 2));
    assert!(utf8_len_exceeds("😀", 3));
    let s = "ü".repeat(100);
    assert!(!utf8_len_exceeds(&s, s.len()));
    assert!(utf8_len_exceeds(&s, s.len() - 1));
}
