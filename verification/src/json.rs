//! JSON values as the flags see them: the value type itself comes from
//! `serde_json`; this module gives it a mathematical model and the few
//! operations the codecs need.

use serde_json::Value;
use vstd::prelude::*;

verus! {

/// `serde_json::Value`, taken as it is. The library carries such values and
/// hands them to the codecs; what one holds is known by [`json_of`] alone.
#[verifier::external_type_specification]
#[verifier::external_body]
pub struct ExValue(serde_json::Value);

/// The six kinds of JSON value.
#[derive(Debug, Clone, Copy, PartialEq, Eq, Structural)]
pub enum JsonKind {
    Null,
    Bool,
    Number,
    String,
    Array,
    Object,
}

/// What a JSON number holds: an integer of any size, or a number that is not
/// stored as an integer. The model does not tell two such numbers apart.
pub enum JsonNumber {
    Integer(int),
    Fraction,
}

/// The mathematical model of a JSON value.
pub enum Json {
    Null,
    Bool(bool),
    Number(JsonNumber),
    String(Seq<char>),
    Array(Seq<Json>),
    Object(Map<Seq<char>, Json>),
}

impl Json {
    pub open spec fn kind(self) -> JsonKind {
        match self {
            Json::Null => JsonKind::Null,
            Json::Bool(_) => JsonKind::Bool,
            Json::Number(_) => JsonKind::Number,
            Json::String(_) => JsonKind::String,
            Json::Array(_) => JsonKind::Array,
            Json::Object(_) => JsonKind::Object,
        }
    }

    /// The integer that the value holds, if it is a number stored as one.
    pub open spec fn as_integer(self) -> Option<int> {
        match self {
            Json::Number(JsonNumber::Integer(n)) => Some(n),
            _ => None,
        }
    }
}

/// What a `serde_json::Value` holds, variant by variant: `Null`, `Bool` with
/// its boolean, `String` with its text, `Array` with what its items hold,
/// `Object` with what its entries hold under their keys, and `Number` with
/// its integer where the number is stored as one (whether signed or not) and
/// as a fraction where it is stored as a floating-point number. Nothing is
/// proved of this: the functions below that read or build a value say what
/// `serde_json` does in these terms.
pub uninterp spec fn json_of(value: Value) -> Json;

/// The error of an enumeration that was given a text naming none of its
/// variants.
#[derive(Debug, Clone, Copy, PartialEq, Eq, Structural)]
pub struct ParseError;

impl ParseError {
    /// The text shown for this error.
    pub fn message(&self) -> (text: String)
        ensures
            text@ == "Matching variant not found"@,
    {
        "Matching variant not found".to_owned()
    }
}

/// Why a JSON value could not be read as a flag's value.
#[derive(Debug, Clone, Copy, PartialEq, Eq, Structural)]
pub enum FromJsonError {
    /// The value is of another kind than the flag's type is written in.
    WrongKind { expected: JsonKind, actual: JsonKind },
    /// The value is of the right kind but stands for no value of the flag's
    /// type: a number out of range, a text that names no variant.
    ParseError,
}

impl From<ParseError> for FromJsonError {
    fn from(cause: ParseError) -> (error: FromJsonError) {
        FromJsonError::ParseError
    }
}

impl vstd::std_specs::convert::FromSpecImpl<ParseError> for FromJsonError {
    open spec fn obeys_from_spec() -> bool {
        true
    }

    open spec fn from_spec(cause: ParseError) -> FromJsonError {
        FromJsonError::ParseError
    }
}

/// Tells the six variants of `serde_json::Value` apart. The contract claims
/// that the kind returned is the kind of what the value holds.
#[verifier::external_body]
pub(crate) fn value_kind(value: &Value) -> (kind: JsonKind)
    ensures
        kind == json_of(*value).kind(),
{
    match value {
        Value::Null => JsonKind::Null,
        Value::Bool(_) => JsonKind::Bool,
        Value::Number(_) => JsonKind::Number,
        Value::String(_) => JsonKind::String,
        Value::Array(_) => JsonKind::Array,
        Value::Object(_) => JsonKind::Object,
    }
}

/// Calls `serde_json::Value::as_bool`. The contract claims what its
/// documentation says: the boolean of a `Value::Bool`, and `None` for every
/// other value.
#[verifier::external_body]
pub(crate) fn value_as_bool(value: &Value) -> (found: Option<bool>)
    ensures
        found == (match json_of(*value) {
            Json::Bool(b) => Some(b),
            _ => None,
        }),
{
    value.as_bool()
}

/// Calls `Value::from(bool)`. The contract claims that the result is a
/// `Value::Bool` of the boolean.
#[verifier::external_body]
pub(crate) fn value_from_bool(b: bool) -> (value: Value)
    ensures
        json_of(value) == Json::Bool(b),
{
    Value::from(b)
}

/// Calls `serde_json::Value::as_i64`. The contract claims what its
/// documentation says: the integer of a number that is stored as an integer
/// and lies within `i64`, and `None` for every other value.
#[verifier::external_body]
pub(crate) fn value_as_i64(value: &Value) -> (found: Option<i64>)
    ensures
        found == (match json_of(*value).as_integer() {
            Some(n) => if i64::MIN <= n <= i64::MAX {
                Some(n as i64)
            } else {
                None
            },
            None => None,
        }),
{
    value.as_i64()
}

/// Calls `Value::from(i64)`. The contract claims that the result is a number
/// that holds the integer.
#[verifier::external_body]
pub(crate) fn value_from_i64(n: i64) -> (value: Value)
    ensures
        json_of(value) == Json::Number(JsonNumber::Integer(n as int)),
{
    Value::from(n)
}

/// Calls `serde_json::Value::as_str`. The contract claims what its
/// documentation says: the text of a `Value::String`, and `None` for every
/// other value.
#[verifier::external_body]
pub(crate) fn value_as_str(value: &Value) -> (found: Option<&str>)
    ensures
        match json_of(*value) {
            Json::String(text) => found matches Some(s) && s@ == text,
            _ => found is None,
        },
{
    value.as_str()
}

/// Calls `Value::from(String)`. The contract claims that the result is a
/// `Value::String` of the text.
#[verifier::external_body]
pub(crate) fn value_from_string(text: String) -> (value: Value)
    ensures
        json_of(value) == Json::String(text@),
{
    Value::from(text)
}

/// `Clone` of `serde_json::Value`, which is derived. The contract claims that
/// the copy is the value again.
pub assume_specification[ <Value as Clone>::clone ](value: &Value) -> (copy: Value)
    ensures
        copy == *value,
;

} // verus!
