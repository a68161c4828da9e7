//! How a flag presents itself to whoever displays or edits it.

use crate::persist::Timestamp;
use serde_json::Value;
use vstd::prelude::*;

verus! {

/// The shape of a text.
#[derive(Debug, Clone, Copy, PartialEq, Eq)]
pub enum StringFormat {
    /// Any text.
    Any,
    /// A text that matches the regular expression given.
    Pattern(&'static str),
    /// One of the texts given.
    Choices(&'static [&'static str]),
}

/// The shape of a flag's value in JSON.
#[derive(Debug, PartialEq, Eq)]
pub enum SerializedFormat {
    Bool,
    Number,
    String(StringFormat),
    /// A list of values of one shape.
    List(Box<SerializedFormat>),
    /// A list of values of one shape in which none occurs twice.
    SetOf(Box<SerializedFormat>),
    /// An object: the shape of its keys, and the shape of its values.
    MapOf(StringFormat, Box<SerializedFormat>),
    /// A value of the shape given, or null.
    Optional(Box<SerializedFormat>),
}

/// A snapshot of one flag, made on demand for display.
#[derive(Debug, PartialEq, Eq)]
pub struct FeatureDefinition {
    /// The flag's name.
    pub key: &'static str,
    /// What the flag is for.
    pub description: String,
    /// The shape of its value.
    pub format: SerializedFormat,
    /// Its value now, in JSON.
    pub value: Value,
    /// Its default, in JSON.
    pub default: Value,
    /// When the value was last set, if it ever was.
    pub modified_at: Option<Timestamp>,
    /// Who set it last, if anyone did.
    pub modified_by: Option<String>,
}

impl Clone for SerializedFormat {
    fn clone(&self) -> (copy: Self)
        ensures
            copy == *self,
        decreases self,
    {
        match self {
            SerializedFormat::Bool => SerializedFormat::Bool,
            SerializedFormat::Number => SerializedFormat::Number,
            SerializedFormat::String(text) => SerializedFormat::String(*text),
            SerializedFormat::List(items) => SerializedFormat::List(Box::new((&**items).clone())),
            SerializedFormat::SetOf(items) => SerializedFormat::SetOf(
                Box::new((&**items).clone()),
            ),
            SerializedFormat::MapOf(keys, items) => SerializedFormat::MapOf(
                *keys,
                Box::new((&**items).clone()),
            ),
            SerializedFormat::Optional(inner) => SerializedFormat::Optional(
                Box::new((&**inner).clone()),
            ),
        }
    }
}

impl Clone for FeatureDefinition {
    fn clone(&self) -> (copy: Self)
        ensures
            copy == *self,
    {
        FeatureDefinition {
            key: self.key,
            description: self.description.clone(),
            format: self.format.clone(),
            value: self.value.clone(),
            default: self.default.clone(),
            modified_at: self.modified_at,
            modified_by: match &self.modified_by {
                Some(name) => Some(name.clone()),
                None => None,
            },
        }
    }
}

} // verus!
