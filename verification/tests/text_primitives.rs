use httptrace::numeral::{decimal, parse_u64};
use httptrace::text::{
    chars_of, contains, is_whitespace, lines, same_text, split_whitespace, starts_with, trim,
};

#[test]
fn chars_of_keeps_every_character() {
    assert_eq!(chars_of("aé\u{3000}z"), vec!['a', 'é', '\u{3000}', 'z']);
    assert_eq!(chars_of(""), Vec::<char>::new());
}

#[test]
fn whitespace_agrees_with_the_standard_library() {
    let mut code: u32 = 0;
    while code <= 0x11000 {
        if let Some(c) = char::from_u32(code) {
            assert_eq!(is_whitespace(c), c.is_whitespace(), "U+{:04X}", code);
        }
        code += 1;
    }
}

#[test]
fn trim_drops_both_ends_only() {
    assert_eq!(trim("  \t en0  lo0 \r\n"), "en0  lo0");
    assert_eq!(trim("\u{a0}x\u{2003}"), "x");
    assert_eq!(trim("   "), "");
    assert_eq!(trim(""), "");
    assert_eq!(trim("abc"), "abc");
}

#[test]
fn split_whitespace_gives_the_words_in_order() {
    assert_eq!(
        split_whitespace("default   192.168.1.1\tUGScg  en0 "),
        vec!["default", "192.168.1.1", "UGScg", "en0"]
    );
    assert_eq!(split_whitespace("   "), Vec::<String>::new());
    assert_eq!(split_whitespace(""), Vec::<String>::new());
    assert_eq!(split_whitespace("one"), vec!["one"]);
    for sample in ["a b", " a  b ", "\tx\u{2028}y\n", "héllo wörld", "a\u{85}b"] {
        let expected: Vec<String> = sample.split_whitespace().map(String::from).collect();
        assert_eq!(split_whitespace(sample), expected);
    }
}

#[test]
fn lines_agree_with_the_standard_library() {
    assert_eq!(lines("a\nb\r\nc"), vec!["a", "b", "c"]);
    assert_eq!(lines("a\n"), vec!["a"]);
    assert_eq!(lines("\n"), vec![""]);
    assert_eq!(lines(""), Vec::<&str>::new());
    for sample in ["", "\n\n", "x\r", "x\r\n", "\r\n\r\n", "a\rb\nc\r\r\nd", "tail\n\r", "é\n\u{3000}"] {
        let expected: Vec<&str> = sample.lines().collect();
        assert_eq!(lines(sample), expected, "{:?}", sample);
    }
}

#[test]
fn prefix_and_infix_tests() {
    assert!(starts_with("0.0.0.0/0", "0.0.0.0/0"));
    assert!(starts_with("0.0.0.0/0.1", "0.0.0.0/0"));
    assert!(!starts_with("0.0.0.0", "0.0.0.0/0"));
    assert!(starts_with("abc", ""));
    assert!(contains("bridge100", "100"));
    assert!(contains("lo0", "lo"));
    assert!(contains("vlan0", "lan"));
    assert!(!contains("en0", "lo"));
    assert!(contains("", ""));
    assert!(!contains("", "x"));
    assert!(same_text("en0", "en0"));
    assert!(!same_text("en0", "en1"));
    assert!(!same_text("en0", "en"));
}

#[test]
fn parse_u64_accepts_what_the_standard_library_accepts() {
    assert_eq!(parse_u64("0"), Some(0));
    assert_eq!(parse_u64("007"), Some(7));
    assert_eq!(parse_u64("+42"), Some(42));
    assert_eq!(parse_u64("18446744073709551615"), Some(u64::MAX));
    assert_eq!(parse_u64("18446744073709551616"), None);
    assert_eq!(parse_u64("99999999999999999999999"), None);
    assert_eq!(parse_u64(""), None);
    assert_eq!(parse_u64("+"), None);
    assert_eq!(parse_u64("-1"), None);
    assert_eq!(parse_u64("++1"), None);
    assert_eq!(parse_u64("12a"), None);
    assert_eq!(parse_u64(" 12"), None);
    assert_eq!(parse_u64("١٢"), None);
    for sample in ["1", "+0", "-0", "1_000", "0x10", "18446744073709551615", "184467440737095516150"] {
        assert_eq!(parse_u64(sample), sample.parse::<u64>().ok(), "{:?}", sample);
    }
}

#[test]
fn decimal_writes_base_ten() {
    assert_eq!(decimal(0), "0");
    assert_eq!(decimal(9), "9");
    assert_eq!(decimal(10), "10");
    assert_eq!(decimal(200), "200");
    assert_eq!(decimal(u64::MAX), "18446744073709551615");
    for n in [1u64, 42, 404, 65535, 1_000_000_007] {
        assert_eq!(parse_u64(&decimal(n)), Some(n));
        assert_eq!(decimal(n), n.to_string());
    }
}
