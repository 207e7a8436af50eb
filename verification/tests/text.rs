use voanews::text::{
    chars_of, i32_to_decimal, join, last_segment_of, parse_i32, same_text, starts_with, trim,
    u64_to_decimal,
};

#[test]
fn trim_removes_ascii_whitespace() {
    assert_eq!(trim("  a b \t\n"), "a b");
    assert_eq!(trim("a"), "a");
    assert_eq!(trim(""), "");
    assert_eq!(trim(" \r\n\t "), "");
}

#[test]
fn trim_removes_unicode_whitespace() {
    assert_eq!(trim("\u{3000}x y\u{a0}\u{2028}"), "x y");
    assert_eq!(trim("\u{200b}x"), "\u{200b}x");
}

#[test]
fn trim_agrees_with_std() {
    for s in ["  a ", "\u{85}b\u{85}", "\u{2000} c \u{200a}", "\u{feff}d", "e\u{180e}"] {
        assert_eq!(trim(s), s.trim());
    }
}

#[test]
fn trim_twice_is_trim_once() {
    let once = trim("\t  Headline with space  \n");
    assert_eq!(trim(&once), once);
}

#[test]
fn decimal_numerals() {
    assert_eq!(u64_to_decimal(0), "0");
    assert_eq!(u64_to_decimal(7), "7");
    assert_eq!(u64_to_decimal(1234567890), "1234567890");
    assert_eq!(u64_to_decimal(u64::MAX), "18446744073709551615");
    assert_eq!(i32_to_decimal(-5), "-5");
    assert_eq!(i32_to_decimal(i32::MIN), "-2147483648");
    assert_eq!(i32_to_decimal(i32::MAX), "2147483647");
}

#[test]
fn parse_i32_accepts_what_std_accepts() {
    assert_eq!(parse_i32("42"), Some(42));
    assert_eq!(parse_i32("+7"), Some(7));
    assert_eq!(parse_i32("-0"), Some(0));
    assert_eq!(parse_i32("00012"), Some(12));
    assert_eq!(parse_i32("2147483647"), Some(i32::MAX));
    assert_eq!(parse_i32("-2147483648"), Some(i32::MIN));
}

#[test]
fn parse_i32_rejects_what_std_rejects() {
    for s in ["", "-", "+", "12a", " 1", "1 ", "2147483648", "-2147483649", "99999999999999", "+-1", "٣"] {
        assert_eq!(parse_i32(s), None, "{s:?}");
        assert!(s.parse::<i32>().is_err());
    }
}

#[test]
fn numeral_parses_back() {
    for n in [0, 1, -1, 9, 10, -10, 123456, i32::MIN, i32::MAX] {
        assert_eq!(parse_i32(&i32_to_decimal(n)), Some(n));
    }
}

#[test]
fn join_puts_separator_between_parts() {
    let parts = vec!["a".to_string(), "b".to_string(), "c".to_string()];
    assert_eq!(join(&parts, " / "), "a / b / c");
    assert_eq!(join(&vec!["only".to_string()], "\n"), "only");
    assert_eq!(join(&Vec::new(), ","), "");
}

#[test]
fn last_segment_is_text_after_last_separator() {
    assert_eq!(last_segment_of("a/b/c.mp3", '/'), "c.mp3");
    assert_eq!(last_segment_of("no-slash", '/'), "no-slash");
    assert_eq!(last_segment_of("ends/", '/'), "");
    assert_eq!(last_segment_of("x.tar.gz", '.'), "gz");
}

#[test]
fn text_comparisons() {
    assert!(same_text("abc", "abc"));
    assert!(!same_text("abc", "abd"));
    assert!(!same_text("ab", "abc"));
    assert!(starts_with("https://www.voanews.com/z/1", "https://www.voanews.com/z/"));
    assert!(!starts_with("https://", "https://www"));
    assert_eq!(chars_of("héllo").len(), 5);
}

#[test]
fn surrounding_whitespace_does_not_change_trim() {
    let t = " inner text\t";
    let padded = format!("\u{3000}\n {t}\u{a0} ");
    assert_eq!(trim(&padded), trim(t));
}
