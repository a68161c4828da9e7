use feattle_core::{FeattleValue, FromJsonError, JsonKind, ParseError, SerializedFormat, StringFormat};
use serde_json::Value;

fn wrong_kind(expected: JsonKind, actual: JsonKind) -> FromJsonError {
    FromJsonError::WrongKind { expected, actual }
}

#[test]
fn bool_round_trip() {
    for value in [true, false] {
        assert_eq!(bool::try_from_json(&value.as_json()), Ok(value));
    }
    assert_eq!(true.as_json(), Value::Bool(true));
    assert_eq!(false.as_json(), Value::Bool(false));
    assert_eq!(bool::serialized_format(), SerializedFormat::Bool);
}

#[test]
fn bool_refuses_every_other_kind() {
    assert_eq!(bool::try_from_json(&Value::Null), Err(wrong_kind(JsonKind::Bool, JsonKind::Null)));
    assert_eq!(
        bool::try_from_json(&Value::from(1)),
        Err(wrong_kind(JsonKind::Bool, JsonKind::Number))
    );
    assert_eq!(
        bool::try_from_json(&Value::from("true")),
        Err(wrong_kind(JsonKind::Bool, JsonKind::String))
    );
    assert_eq!(
        bool::try_from_json(&Value::Array(vec![Value::Bool(true)])),
        Err(wrong_kind(JsonKind::Bool, JsonKind::Array))
    );
    assert_eq!(
        bool::try_from_json(&Value::Object(serde_json::Map::new())),
        Err(wrong_kind(JsonKind::Bool, JsonKind::Object))
    );
}

#[test]
fn i64_round_trip() {
    for value in [0i64, 1, -1, 42, i64::MAX, i64::MIN] {
        assert_eq!(i64::try_from_json(&value.as_json()), Ok(value));
        assert_eq!(value.as_json(), Value::from(value));
    }
    assert_eq!(i64::serialized_format(), SerializedFormat::Number);
}

#[test]
fn i64_refuses_what_is_no_integer_of_its_range() {
    assert_eq!(i64::try_from_json(&Value::from(1.5)), Err(FromJsonError::ParseError));
    assert_eq!(i64::try_from_json(&Value::from(256.0)), Err(FromJsonError::ParseError));
    assert_eq!(i64::try_from_json(&Value::from(u64::MAX)), Err(FromJsonError::ParseError));
    assert_eq!(
        i64::try_from_json(&Value::from(i64::MAX as u64 + 1)),
        Err(FromJsonError::ParseError)
    );
    assert_eq!(
        i64::try_from_json(&Value::from("12")),
        Err(wrong_kind(JsonKind::Number, JsonKind::String))
    );
    assert_eq!(i64::try_from_json(&Value::Null), Err(wrong_kind(JsonKind::Number, JsonKind::Null)));
    assert_eq!(
        i64::try_from_json(&Value::Bool(false)),
        Err(wrong_kind(JsonKind::Number, JsonKind::Bool))
    );
}

#[test]
fn i32_round_trip() {
    for value in [0i32, 7, -7, i32::MAX, i32::MIN] {
        assert_eq!(i32::try_from_json(&value.as_json()), Ok(value));
        assert_eq!(value.as_json(), Value::from(value));
    }
    assert_eq!(i32::serialized_format(), SerializedFormat::Number);
}

#[test]
fn i32_refuses_what_is_out_of_its_range() {
    assert_eq!(i32::try_from_json(&Value::from(i32::MAX as i64)), Ok(i32::MAX));
    assert_eq!(i32::try_from_json(&Value::from(i32::MIN as i64)), Ok(i32::MIN));
    assert_eq!(
        i32::try_from_json(&Value::from(i32::MAX as i64 + 1)),
        Err(FromJsonError::ParseError)
    );
    assert_eq!(
        i32::try_from_json(&Value::from(i32::MIN as i64 - 1)),
        Err(FromJsonError::ParseError)
    );
    assert_eq!(i32::try_from_json(&Value::from(0.25)), Err(FromJsonError::ParseError));
    assert_eq!(
        i32::try_from_json(&Value::Array(Vec::new())),
        Err(wrong_kind(JsonKind::Number, JsonKind::Array))
    );
}

#[test]
fn string_round_trip() {
    for text in ["", "plain", "with \"quotes\"", "na\u{ef}ve \u{1f600}"] {
        let value = text.to_owned();
        assert_eq!(String::try_from_json(&value.as_json()), Ok(value.clone()));
        assert_eq!(value.as_json(), Value::String(value));
    }
    assert_eq!(String::serialized_format(), SerializedFormat::String(StringFormat::Any));
}

#[test]
fn string_refuses_every_other_kind() {
    assert_eq!(
        String::try_from_json(&Value::from(3)),
        Err(wrong_kind(JsonKind::String, JsonKind::Number))
    );
    assert_eq!(
        String::try_from_json(&Value::Bool(true)),
        Err(wrong_kind(JsonKind::String, JsonKind::Bool))
    );
    assert_eq!(
        String::try_from_json(&Value::Null),
        Err(wrong_kind(JsonKind::String, JsonKind::Null))
    );
}

#[test]
fn parse_error_has_its_message_and_becomes_a_json_error() {
    assert_eq!(ParseError.message(), "Matching variant not found");
    assert_eq!(FromJsonError::from(ParseError), FromJsonError::ParseError);
}
