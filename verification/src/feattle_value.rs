//! What a type has to offer to be the value of a flag.

use crate::definition::{SerializedFormat, StringFormat};
use crate::json::{
    json_of, value_as_bool, value_as_i64, value_as_str, value_from_bool, value_from_i64,
    value_from_string, value_kind, FromJsonError, Json, JsonKind, JsonNumber,
};
use serde_json::Value;
use vstd::prelude::*;

verus! {

/// The codec of a flag's value type: to JSON and back, with a description of
/// the JSON it reads.
///
/// The trait asks nothing of an implementation. What the library says of a
/// flag it says of whatever the flag's codec returns: see [`encodes`] and
/// [`decodes`]. An implementation that states what it returns, as those of
/// `bool`, `i32`, `i64` and `String` below do, makes those statements exact.
pub trait FeattleValue: Sized {
    /// Writes the value as JSON.
    fn as_json(&self) -> Value;

    /// A short text that shows the value to a person.
    fn overview(&self) -> String;

    /// Reads a value from JSON, or says why the JSON holds none.
    fn try_from_json(value: &Value) -> Result<Self, FromJsonError>;

    /// The shape of the JSON that `try_from_json` reads.
    fn serialized_format() -> SerializedFormat;
}

/// `json` is what `as_json` may give for `value`.
pub open spec fn encodes<T: FeattleValue>(value: T, json: Value) -> bool {
    call_ensures(T::as_json, (&value,), json)
}

/// `outcome` is what `try_from_json` may give for `json`.
pub open spec fn decodes<T: FeattleValue>(json: Value, outcome: Result<T, FromJsonError>) -> bool {
    call_ensures(T::try_from_json, (&json,), outcome)
}

/// `try_from_json` may read a value from `json`.
pub open spec fn accepts<T: FeattleValue>(json: Value) -> bool {
    exists|value: T| decodes::<T>(json, Ok(value))
}

/// `try_from_json` may refuse `json` with `error`.
pub open spec fn refuses<T: FeattleValue>(json: Value, error: FromJsonError) -> bool {
    decodes::<T>(json, Err(error))
}

/// Whatever a value of `T` is written as is read back as that value.
pub open spec fn round_trips<T: FeattleValue>() -> bool {
    forall|value: T, json: Value, outcome: Result<T, FromJsonError>|
        #[trigger] encodes(value, json) && #[trigger] decodes(json, outcome) ==> outcome == Ok::<
            T,
            FromJsonError,
        >(value)
}

/// Whatever a value of `T` is written as is read back as a value with the
/// same view. This is what can be said of a type, such as `String`, whose
/// values are told apart by their views.
pub open spec fn round_trips_by_view<T: FeattleValue + View>() -> bool {
    forall|value: T, json: Value, outcome: Result<T, FromJsonError>|
        #[trigger] encodes(value, json) && #[trigger] decodes(json, outcome) ==> (outcome matches Ok(
            read,
        ) && read@ == value@)
}

/// The error for a value of another kind than `expected`.
pub open spec fn wrong_kind(expected: JsonKind, json: Json) -> FromJsonError {
    FromJsonError::WrongKind { expected, actual: json.kind() }
}

/// What a JSON value reads as when a boolean is asked for.
pub open spec fn bool_of_json(json: Json) -> Result<bool, FromJsonError> {
    match json {
        Json::Bool(b) => Ok(b),
        _ => Err(wrong_kind(JsonKind::Bool, json)),
    }
}

impl FeattleValue for bool {
    fn as_json(&self) -> (json: Value)
        ensures
            json_of(json) == Json::Bool(*self),
    {
        value_from_bool(*self)
    }

    fn overview(&self) -> (text: String)
        ensures
            text@ == (if *self {
                "true"@
            } else {
                "false"@
            }),
    {
        if *self {
            "true".to_owned()
        } else {
            "false".to_owned()
        }
    }

    fn try_from_json(value: &Value) -> (outcome: Result<bool, FromJsonError>)
        ensures
            outcome == bool_of_json(json_of(*value)),
    {
        match value_as_bool(value) {
            Some(b) => Ok(b),
            None => Err(FromJsonError::WrongKind { expected: JsonKind::Bool, actual: value_kind(value) }),
        }
    }

    fn serialized_format() -> (format: SerializedFormat)
        ensures
            format == SerializedFormat::Bool,
    {
        SerializedFormat::Bool
    }
}

/// Booleans are read back as they were written.
pub proof fn lemma_bool_round_trips()
    ensures
        round_trips::<bool>(),
{
}

/// What a JSON value reads as when a 64-bit integer is asked for: the
/// integer it holds, if it is a number stored as an integer that fits.
pub open spec fn i64_of_json(json: Json) -> Result<i64, FromJsonError> {
    match json {
        Json::Number(JsonNumber::Integer(n)) => if i64::MIN <= n <= i64::MAX {
            Ok(n as i64)
        } else {
            Err(FromJsonError::ParseError)
        },
        Json::Number(JsonNumber::Fraction) => Err(FromJsonError::ParseError),
        _ => Err(wrong_kind(JsonKind::Number, json)),
    }
}

/// What a JSON value reads as when a 32-bit integer is asked for.
pub open spec fn i32_of_json(json: Json) -> Result<i32, FromJsonError> {
    match i64_of_json(json) {
        Ok(n) => if i32::MIN <= n <= i32::MAX {
            Ok(n as i32)
        } else {
            Err(FromJsonError::ParseError)
        },
        Err(error) => Err(error),
    }
}

impl FeattleValue for i64 {
    fn as_json(&self) -> (json: Value)
        ensures
            json_of(json) == Json::Number(JsonNumber::Integer(*self as int)),
    {
        value_from_i64(*self)
    }

    fn overview(&self) -> (text: String)
        ensures
            vstd::string::to_string_from_display_ensures::<i64>(self, text),
    {
        self.to_string()
    }

    fn try_from_json(value: &Value) -> (outcome: Result<i64, FromJsonError>)
        ensures
            outcome == i64_of_json(json_of(*value)),
    {
        match value_as_i64(value) {
            Some(n) => Ok(n),
            None => match value_kind(value) {
                JsonKind::Number => Err(FromJsonError::ParseError),
                kind => Err(FromJsonError::WrongKind { expected: JsonKind::Number, actual: kind }),
            },
        }
    }

    fn serialized_format() -> (format: SerializedFormat)
        ensures
            format == SerializedFormat::Number,
    {
        SerializedFormat::Number
    }
}

impl FeattleValue for i32 {
    fn as_json(&self) -> (json: Value)
        ensures
            json_of(json) == Json::Number(JsonNumber::Integer(*self as int)),
    {
        value_from_i64(*self as i64)
    }

    fn overview(&self) -> (text: String)
        ensures
            vstd::string::to_string_from_display_ensures::<i32>(self, text),
    {
        self.to_string()
    }

    fn try_from_json(value: &Value) -> (outcome: Result<i32, FromJsonError>)
        ensures
            outcome == i32_of_json(json_of(*value)),
    {
        match i64::try_from_json(value) {
            Ok(n) => if -0x8000_0000 <= n && n <= 0x7fff_ffff {
                Ok(n as i32)
            } else {
                Err(FromJsonError::ParseError)
            },
            Err(error) => Err(error),
        }
    }

    fn serialized_format() -> (format: SerializedFormat)
        ensures
            format == SerializedFormat::Number,
    {
        SerializedFormat::Number
    }
}

impl FeattleValue for String {
    fn as_json(&self) -> (json: Value)
        ensures
            json_of(json) == Json::String(self@),
    {
        value_from_string(self.clone())
    }

    fn overview(&self) -> (text: String)
        ensures
            text == *self,
    {
        self.clone()
    }

    fn try_from_json(value: &Value) -> (outcome: Result<String, FromJsonError>)
        ensures
            match json_of(*value) {
                Json::String(text) => outcome matches Ok(read) && read@ == text,
                other => outcome == Err::<String, FromJsonError>(wrong_kind(JsonKind::String, other)),
            },
    {
        match value_as_str(value) {
            Some(text) => Ok(text.to_owned()),
            None => Err(
                FromJsonError::WrongKind { expected: JsonKind::String, actual: value_kind(value) },
            ),
        }
    }

    fn serialized_format() -> (format: SerializedFormat)
        ensures
            format == SerializedFormat::String(StringFormat::Any),
    {
        SerializedFormat::String(StringFormat::Any)
    }
}

/// 64-bit integers are read back as they were written.
pub proof fn lemma_i64_round_trips()
    ensures
        round_trips::<i64>(),
{
}

/// 32-bit integers are read back as they were written.
pub proof fn lemma_i32_round_trips()
    ensures
        round_trips::<i32>(),
{
}

/// A text is read back as the same text.
pub proof fn lemma_string_round_trips()
    ensures
        round_trips_by_view::<String>(),
{
}

} // verus!
