use aletheia::text::{parse_unsigned, push_decimal};

#[test]
fn parse_unsigned_accepts_decimal() {
    assert_eq!(parse_unsigned("123", u64::MAX), Some(123));
    assert_eq!(parse_unsigned("+5", u64::MAX), Some(5));
    assert_eq!(parse_unsigned("007", u64::MAX), Some(7));
    assert_eq!(parse_unsigned("4294967295", u32::MAX as u64), Some(4294967295));
    assert_eq!(parse_unsigned("18446744073709551615", u64::MAX), Some(u64::MAX));
}

#[test]
fn parse_unsigned_rejects() {
    assert_eq!(parse_unsigned("", u64::MAX), None);
    assert_eq!(parse_unsigned("+", u64::MAX), None);
    assert_eq!(parse_unsigned("-1", u64::MAX), None);
    assert_eq!(parse_unsigned(" 1", u64::MAX), None);
    assert_eq!(parse_unsigned("1a", u64::MAX), None);
    assert_eq!(parse_unsigned("4294967296", u32::MAX as u64), None);
    assert_eq!(parse_unsigned("18446744073709551616", u64::MAX), None);
    assert_eq!(parse_unsigned("99999999999999999999x", u64::MAX), None);
}

#[test]
fn parse_unsigned_agrees_with_std() {
    for s in ["0", "+0", "42", "4294967295", "4294967296", "", "+", "-0", "12x", "+-1", "٣"] {
        assert_eq!(parse_unsigned(s, u32::MAX as u64).map(|v| v as u32), s.parse::<u32>().ok());
    }
}

#[test]
fn decimal_text() {
    let mut s = String::new();
    push_decimal(&mut s, 0);
    assert_eq!(s, "0");
    let mut t = "x".to_owned();
    push_decimal(&mut t, 1234567890);
    assert_eq!(t, "x1234567890");
    let mut u = String::new();
    push_decimal(&mut u, u64::MAX);
    assert_eq!(u, u64::MAX.to_string());
}
