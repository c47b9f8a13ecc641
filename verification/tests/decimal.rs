use metrika::decimal::{i64_text, parse_i64, u64_text};

#[test]
fn writes_integers_in_decimal() {
    assert_eq!(u64_text(0), "0");
    assert_eq!(u64_text(7), "7");
    assert_eq!(u64_text(1234567890), "1234567890");
    assert_eq!(u64_text(u64::MAX), "18446744073709551615");
    assert_eq!(i64_text(0), "0");
    assert_eq!(i64_text(-42), "-42");
    assert_eq!(i64_text(10000), "10000");
    assert_eq!(i64_text(i64::MAX), "9223372036854775807");
    assert_eq!(i64_text(i64::MIN), "-9223372036854775808");
}

#[test]
fn reads_integers_as_std_does() {
    assert_eq!(parse_i64("0"), Some(0));
    assert_eq!(parse_i64("42"), Some(42));
    assert_eq!(parse_i64("+42"), Some(42));
    assert_eq!(parse_i64("-42"), Some(-42));
    assert_eq!(parse_i64("-0"), Some(0));
    assert_eq!(parse_i64("007"), Some(7));
    assert_eq!(parse_i64("9223372036854775807"), Some(i64::MAX));
    assert_eq!(parse_i64("-9223372036854775808"), Some(i64::MIN));
    assert_eq!(parse_i64("9223372036854775808"), None);
    assert_eq!(parse_i64("-9223372036854775809"), None);
    assert_eq!(parse_i64("123456789012345678901234567890"), None);
    assert_eq!(parse_i64(""), None);
    assert_eq!(parse_i64("-"), None);
    assert_eq!(parse_i64("+"), None);
    assert_eq!(parse_i64("12a"), None);
    assert_eq!(parse_i64(" 12"), None);
    assert_eq!(parse_i64("1-2"), None);
    assert_eq!(parse_i64("٣"), None);
}

#[test]
fn parsing_agrees_with_std() {
    for text in ["1", "-1", "+17", "00", "-", "+-1", "99999999999999999999", "-9223372036854775808", "x", ""] {
        assert_eq!(parse_i64(text), text.parse::<i64>().ok(), "text {:?}", text);
    }
}

#[test]
fn written_integers_read_back() {
    for n in [0i64, 1, -1, 9, 10, -10, 12345, -98765, i64::MAX, i64::MIN, i64::MIN + 1] {
        assert_eq!(parse_i64(&i64_text(n)), Some(n));
        assert_eq!(i64_text(n), n.to_string());
    }
}
