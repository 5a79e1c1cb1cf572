use keymint::keys::parse_key;

#[test]
fn parses_plain_ten_digit_key() {
    assert_eq!(parse_key("1234567890"), Some(1234567890));
}

#[test]
fn parses_small_and_signed_integers() {
    assert_eq!(parse_key("0"), Some(0));
    assert_eq!(parse_key("7"), Some(7));
    assert_eq!(parse_key("+5"), Some(5));
    assert_eq!(parse_key("-5"), Some(-5));
    assert_eq!(parse_key("-0"), Some(0));
}

#[test]
fn parses_leading_zeros() {
    assert_eq!(parse_key("00123"), Some(123));
    assert_eq!(parse_key("0000000000000000000000001"), Some(1));
}

#[test]
fn rejects_non_numeric_text() {
    assert_eq!(parse_key("abc"), None);
    assert_eq!(parse_key("12a"), None);
    assert_eq!(parse_key("a12"), None);
}

#[test]
fn rejects_fractions_and_separators() {
    assert_eq!(parse_key("12.5"), None);
    assert_eq!(parse_key("1,000"), None);
    assert_eq!(parse_key("1 23"), None);
}

#[test]
fn rejects_surrounding_whitespace() {
    assert_eq!(parse_key(" 123 "), None);
    assert_eq!(parse_key(" 123"), None);
    assert_eq!(parse_key("123 "), None);
    assert_eq!(parse_key("123\n"), None);
}

#[test]
fn rejects_empty_and_bare_signs() {
    assert_eq!(parse_key(""), None);
    assert_eq!(parse_key("+"), None);
    assert_eq!(parse_key("-"), None);
    assert_eq!(parse_key("+-1"), None);
    assert_eq!(parse_key("--1"), None);
}

#[test]
fn respects_i64_bounds_exactly() {
    assert_eq!(parse_key("9223372036854775807"), Some(i64::MAX));
    assert_eq!(parse_key("9223372036854775808"), None);
    assert_eq!(parse_key("-9223372036854775808"), Some(i64::MIN));
    assert_eq!(parse_key("-9223372036854775809"), None);
    assert_eq!(parse_key("99999999999999999999999999"), None);
}

#[test]
fn rejects_non_ascii_input() {
    assert_eq!(parse_key("１２３"), None);
    assert_eq!(parse_key("12³"), None);
}
