use assetvault::error::IndexError;
use assetvault::json::{given_json, json_to_values, value_to_json, values_to_json};
use assetvault::text::{is_blank, join2};
use assetvault::value::FieldValue;
use serde_json::Value;

fn parsed(text: &str) -> Value {
    serde_json::from_str(text).unwrap()
}

#[test]
fn blank_texts_count_as_missing() {
    assert_eq!(given_json(None), None);
    assert_eq!(given_json(Some("")), None);
    assert_eq!(given_json(Some(" \t\r\n\u{3000}")), None);
    assert_eq!(given_json(Some(" {} ")), Some(" {} "));
    assert!(is_blank("\u{a0}"));
    assert!(!is_blank("\u{200b}"));
}

#[test]
fn texts_are_joined() {
    assert_eq!(join2("unknown field: ", "x"), "unknown field: x");
}

#[test]
fn json_values_are_flattened() {
    let values = json_to_values(&parsed("[\"a\",[1,[true]],null]")).unwrap();
    assert_eq!(
        values,
        vec![
            FieldValue::Text("a".to_string()),
            FieldValue::Integer(1),
            FieldValue::Flag(true),
        ]
    );
    assert_eq!(json_to_values(&parsed("null")).unwrap(), vec![]);
}

#[test]
fn fractions_and_objects_are_no_values() {
    let fault = json_to_values(&parsed("2.0")).unwrap_err();
    assert!(matches!(fault, IndexError::NotInteger(_)));
    assert_eq!(fault.message(), "only integer numbers are supported, got 2.0");
    let fault = json_to_values(&parsed("18446744073709551615")).unwrap_err();
    assert_eq!(
        fault.message(),
        "only integer numbers are supported, got 18446744073709551615"
    );
    assert!(matches!(json_to_values(&parsed("[{}]")).unwrap_err(), IndexError::UnsupportedValue));
}

#[test]
fn values_are_written_and_read_back() {
    assert_eq!(value_to_json(&FieldValue::Integer(-3)), parsed("-3"));
    let one = vec![FieldValue::Text("a".to_string())];
    assert_eq!(values_to_json(&one), parsed("\"a\""));
    assert_eq!(json_to_values(&values_to_json(&one)).unwrap(), one);
    let two = vec![FieldValue::Flag(false), FieldValue::Integer(7)];
    assert_eq!(values_to_json(&two), parsed("[false,7]"));
    assert_eq!(json_to_values(&values_to_json(&two)).unwrap(), two);
    assert_eq!(values_to_json(&vec![]), parsed("[]"));
}
