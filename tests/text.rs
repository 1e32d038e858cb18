use teamspeak_query::fields::parse_int;
use teamspeak_query::text::{decimal_text, split_text};

#[test]
fn split_on_separator() {
    assert_eq!(split_text("a\n\rb\n\r", "\n\r"), vec!["a", "b", ""]);
    assert_eq!(split_text("", "|"), vec![""]);
    assert_eq!(split_text("a||b", "|"), vec!["a", "", "b"]);
    assert_eq!(split_text("\n\n\r\r", "\n\r"), vec!["\n", "\r"]);
}

#[test]
fn integers() {
    assert_eq!(parse_int("42", -100, 100), Some(42));
    assert_eq!(parse_int("-7", -100, 100), Some(-7));
    assert_eq!(parse_int("+7", -100, 100), Some(7));
    assert_eq!(parse_int("101", -100, 100), None);
    assert_eq!(parse_int("", -100, 100), None);
    assert_eq!(parse_int("-", -100, 100), Some(0));
    assert_eq!(parse_int("+", 1, 100), None);
    assert_eq!(parse_int("1a", -100, 100), None);
    assert_eq!(parse_int("-9223372036854775808", i64::MIN, i64::MAX), Some(i64::MIN));
    assert_eq!(parse_int("9223372036854775808", i64::MIN, i64::MAX), None);
    assert_eq!(parse_int("99999999999999999999999", i64::MIN, i64::MAX), None);
    assert_eq!(decimal_text(907), "907");
}
