use collada_parser::collada::util::parse_array;
use collada_parser::text::{
    chars_of, is_joined, is_separator, parse_signed, parse_unsigned, refers_to, same_text,
    split_tokens, strip_marker, text_of,
};

#[test]
fn chars_of_gives_the_characters_in_order() {
    assert_eq!(chars_of("aé€"), vec!['a', 'é', '€']);
    assert!(chars_of("").is_empty());
}

#[test]
fn text_of_builds_the_slice_of_characters() {
    assert_eq!(text_of("hello world", 6, 11), "world");
    assert_eq!(text_of("hello world", 3, 3), "");
    assert_eq!(text_of("hello world", 0, 11), "hello world");
    assert_eq!(text_of("aé€z", 1, 3), "é€");
    assert_eq!(text_of("aé€z", 3, 4), "z");
}

#[test]
fn same_text_compares_character_by_character() {
    assert!(same_text("accessor", "accessor"));
    assert!(!same_text("accessor", "accessors"));
    assert!(!same_text("accessor", "accessoR"));
    assert!(same_text("", ""));
}

#[test]
fn strip_marker_drops_one_leading_character() {
    assert_eq!(strip_marker("#mesh-1"), "mesh-1");
    assert_eq!(strip_marker("##x"), "#x");
    assert_eq!(strip_marker("#"), "");
    assert_eq!(strip_marker(""), "");
}

#[test]
fn refers_to_matches_the_stripped_reference() {
    assert!(refers_to("#positions", "positions"));
    assert!(!refers_to("positions", "positions"));
    assert!(!refers_to("#positions", "#positions"));
    assert!(refers_to("", ""));
}

#[test]
fn is_joined_tests_head_and_tail() {
    assert!(is_joined("walk-input", "walk", "-input"));
    assert!(!is_joined("walk-input", "walk", "-output"));
    assert!(!is_joined("run-input", "walk", "-input"));
    assert!(!is_joined("walk", "walk-input", ""));
    assert!(is_joined("", "", ""));
}

#[test]
fn separators_are_the_white_space_characters() {
    for c in [' ', '\t', '\n', '\r', '\u{b}', '\u{c}', '\u{85}', '\u{a0}', '\u{2003}', '\u{3000}'] {
        assert!(is_separator(c));
    }
    for c in ['a', '0', '-', '\u{200b}', '\u{feff}', '\u{1f}'] {
        assert!(!is_separator(c));
    }
}

#[test]
fn separators_agree_with_the_standard_library() {
    let mut code: u32 = 0;
    while code < 0x11000 {
        if let Some(c) = char::from_u32(code) {
            assert_eq!(is_separator(c), c.is_whitespace());
        }
        code += 1;
    }
}

#[test]
fn split_tokens_gives_the_runs_between_separators() {
    assert_eq!(split_tokens("  1 2\t3\n\n4  "), vec!["1", "2", "3", "4"]);
    assert_eq!(split_tokens("one"), vec!["one"]);
    assert!(split_tokens("").is_empty());
    assert!(split_tokens(" \n\t ").is_empty());
    let text = "a\u{a0}bc\u{2003}d\r\ne";
    let expected: Vec<&str> = text.split_whitespace().collect();
    assert_eq!(split_tokens(text), expected);
}

#[test]
fn parse_unsigned_reads_decimals() {
    assert_eq!(parse_unsigned("0"), Some(0));
    assert_eq!(parse_unsigned("42"), Some(42));
    assert_eq!(parse_unsigned("+42"), Some(42));
    assert_eq!(parse_unsigned("007"), Some(7));
    assert_eq!(parse_unsigned(&usize::MAX.to_string()), Some(usize::MAX));
}

#[test]
fn parse_unsigned_rejects_what_is_no_decimal() {
    assert_eq!(parse_unsigned(""), None);
    assert_eq!(parse_unsigned("+"), None);
    assert_eq!(parse_unsigned("-1"), None);
    assert_eq!(parse_unsigned("12a"), None);
    assert_eq!(parse_unsigned("1.5"), None);
    assert_eq!(parse_unsigned(" 1"), None);
    assert_eq!(parse_unsigned("++1"), None);
    assert_eq!(parse_unsigned("340282366920938463463374607431768211456"), None);
    let over = format!("{}0", usize::MAX);
    assert_eq!(parse_unsigned(&over), None);
}

#[test]
fn parse_unsigned_agrees_with_the_standard_library() {
    for token in ["0", "+0", "-0", "18446744073709551615", "18446744073709551616", "9x", "", "+", "٣"] {
        assert_eq!(parse_unsigned(token), token.parse::<usize>().ok());
    }
}

#[test]
fn parse_signed_reads_decimals_with_a_sign() {
    assert_eq!(parse_signed("0"), Some(0));
    assert_eq!(parse_signed("-0"), Some(0));
    assert_eq!(parse_signed("-12"), Some(-12));
    assert_eq!(parse_signed("+12"), Some(12));
    assert_eq!(parse_signed("9223372036854775807"), Some(i64::MAX));
    assert_eq!(parse_signed("-9223372036854775808"), Some(i64::MIN));
    assert_eq!(parse_signed("9223372036854775808"), None);
    assert_eq!(parse_signed("-9223372036854775809"), None);
    assert_eq!(parse_signed("-"), None);
    assert_eq!(parse_signed("1-"), None);
    assert_eq!(parse_signed(""), None);
}

#[test]
fn parse_signed_agrees_with_the_standard_library() {
    for token in ["7", "-7", "+7", "--7", "9223372036854775807", "9223372036854775808", "-9223372036854775808", "1e3", "0x10"] {
        assert_eq!(parse_signed(token), token.parse::<i64>().ok());
    }
}

#[test]
fn parse_array_reads_every_token() {
    let values: Vec<i64> = parse_array("1 -2  3\n+4").unwrap();
    assert_eq!(values, vec![1, -2, 3, 4]);
    let none: Vec<i64> = parse_array("   ").unwrap();
    assert!(none.is_empty());
}

#[test]
fn parse_array_fails_on_one_bad_token() {
    assert!(parse_array::<usize>("1 2 x 4").is_err());
    assert!(parse_array::<usize>("1 -2").is_err());
    assert!(parse_array::<i64>("1 2.5").is_err());
}
