use expreval::{serialize, Value};

#[test]
fn reals_print_as_canonical_decimals() {
    assert_eq!(serialize(&Value::Real(0)), "0");
    assert_eq!(serialize(&Value::Real(7)), "7");
    assert_eq!(serialize(&Value::Real(-7)), "-7");
    assert_eq!(serialize(&Value::Real(1000)), "1000");
    assert_eq!(serialize(&Value::Real(i64::MAX)), "9223372036854775807");
    assert_eq!(serialize(&Value::Real(i64::MIN)), "-9223372036854775808");
}

#[test]
fn texts_print_quoted_and_escaped() {
    assert_eq!(serialize(&Value::String("".into())), "\"\"");
    assert_eq!(serialize(&Value::String("a\"b".into())), "\"a\\\"b\"");
    assert_eq!(serialize(&Value::String("a\\b".into())), "\"a\\\\b\"");
    assert_eq!(serialize(&Value::String("a\nb\tc\rd".into())), "\"a\\nb\\tc\\rd\"");
    assert_eq!(serialize(&Value::String("a\u{1}b".into())), "\"a\\u{1}b\"");
    assert_eq!(serialize(&Value::String("a\u{7f}b".into())), "\"a\\u{7f}b\"");
}
