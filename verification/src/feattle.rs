//! The cell that holds one flag.

use crate::definition::FeatureDefinition;
use crate::feattle_value::{decodes, encodes, FeattleValue};
use crate::json::FromJsonError;
use crate::persist::{CurrentValue, Timestamp};
use vstd::prelude::*;

verus! {

/// One flag: its name, what it is for, its value, its default, and the record
/// that the value was read from, if it was set at all.
#[derive(Debug)]
pub struct Feattle<T> {
    key: &'static str,
    description: &'static str,
    value: T,
    default: T,
    current_value: Option<CurrentValue>,
}

/// What a [`Feattle`] holds.
pub struct FeattleView<T> {
    pub key: Seq<char>,
    pub description: Seq<char>,
    pub value: T,
    pub default: T,
    pub current_value: Option<CurrentValue>,
}

impl<T> View for Feattle<T> {
    type V = FeattleView<T>;

    closed spec fn view(&self) -> FeattleView<T> {
        FeattleView {
            key: self.key@,
            description: self.description@,
            value: self.value,
            default: self.default,
            current_value: self.current_value,
        }
    }
}

impl<T: Clone> Clone for Feattle<T> {
    /// A flag of the same name and description, with copies of the value
    /// and of the default, and with the same record.
    fn clone(&self) -> (copy: Self)
        ensures
            copy@.key == self@.key,
            copy@.description == self@.description,
            cloned(self@.value, copy@.value),
            cloned(self@.default, copy@.default),
            copy@.current_value == self@.current_value,
    {
        Feattle {
            key: self.key,
            description: self.description,
            value: self.value.clone(),
            default: self.default.clone(),
            current_value: match &self.current_value {
                Some(record) => Some(record.clone()),
                None => None,
            },
        }
    }
}

/// When the record was written, if there is one.
pub open spec fn modified_at(record: Option<CurrentValue>) -> Option<Timestamp> {
    match record {
        Some(r) => Some(r.modified_at),
        None => None,
    }
}

/// Who wrote the record, if there is one.
pub open spec fn modified_by(record: Option<CurrentValue>) -> Option<String> {
    match record {
        Some(r) => Some(r.modified_by),
        None => None,
    }
}

impl<T: FeattleValue + Clone> Feattle<T> {
    /// The value is what the record decodes to, or a copy of the default
    /// where there is no record.
    pub open spec fn wf(&self) -> bool {
        self.resolves(self@.current_value, Ok(self@.value))
    }

    /// `resolved` is what the flag may make of `record`: a copy of the
    /// default for no record, else whatever the codec makes of the record's
    /// value.
    pub open spec fn resolves(
        &self,
        record: Option<CurrentValue>,
        resolved: Result<T, FromJsonError>,
    ) -> bool {
        match record {
            None => resolved matches Ok(v) && cloned(self@.default, v),
            Some(r) => decodes::<T>(r.value, resolved),
        }
    }

    /// The flag `post` is the flag `pre` after `resolved` was put in place
    /// for `record`, and `outcome` is what that step returned: an error
    /// changes nothing; a value replaces the old one, the record replaces
    /// the old record, and the old record is handed back.
    pub open spec fn committed(
        pre: Self,
        record: Option<CurrentValue>,
        resolved: Result<T, FromJsonError>,
        post: Self,
        outcome: Result<Option<CurrentValue>, FromJsonError>,
    ) -> bool {
        match resolved {
            Ok(v) => {
                &&& post@ == (FeattleView { value: v, current_value: record, ..pre@ })
                &&& outcome == Ok::<Option<CurrentValue>, FromJsonError>(pre@.current_value)
            },
            Err(e) => {
                &&& post == pre
                &&& outcome == Err::<Option<CurrentValue>, FromJsonError>(e)
            },
        }
    }

    /// The flag `post` is the flag `pre` after `try_update(record)` returned
    /// `outcome`.
    pub open spec fn updated(
        pre: Self,
        record: Option<CurrentValue>,
        post: Self,
        outcome: Result<Option<CurrentValue>, FromJsonError>,
    ) -> bool {
        match outcome {
            Ok(_) => {
                &&& pre.resolves(record, Ok(post@.value))
                &&& Self::committed(pre, record, Ok(post@.value), post, outcome)
            },
            Err(e) => {
                &&& pre.resolves(record, Err(e))
                &&& Self::committed(pre, record, Err(e), post, outcome)
            },
        }
    }

    /// `definition` shows this flag: its name, its description, the shape
    /// and the JSON that the codec gives, and who set it when.
    pub open spec fn described_by(&self, definition: FeatureDefinition) -> bool {
        &&& definition.key@ == self@.key
        &&& definition.description@ == self@.description
        &&& call_ensures(T::serialized_format, (), definition.format)
        &&& encodes(self@.value, definition.value)
        &&& encodes(self@.default, definition.default)
        &&& definition.modified_at == modified_at(self@.current_value)
        &&& definition.modified_by == modified_by(self@.current_value)
    }

    /// A flag that was never set: it holds a copy of its default and no
    /// record.
    pub fn new(key: &'static str, description: &'static str, default: T) -> (cell: Self)
        ensures
            cell@.key == key@,
            cell@.description == description@,
            cell@.default == default,
            cloned(default, cell@.value),
            cell@.current_value is None,
            cell.wf(),
    {
        Feattle { key, description, value: default.clone(), default, current_value: None }
    }

    /// Shows the flag as it is now.
    pub fn definition(&self) -> (definition: FeatureDefinition)
        ensures
            self.described_by(definition),
    {
        FeatureDefinition {
            key: self.key,
            description: self.description.to_owned(),
            format: T::serialized_format(),
            value: self.value.as_json(),
            default: self.default.as_json(),
            modified_at: match &self.current_value {
                Some(record) => Some(record.modified_at),
                None => None,
            },
            modified_by: match &self.current_value {
                Some(record) => Some(record.modified_by.clone()),
                None => None,
            },
        }
    }

    /// Works out the value that `record` stands for, and changes nothing.
    pub fn resolve(&self, record: &Option<CurrentValue>) -> (resolved: Result<T, FromJsonError>)
        ensures
            self.resolves(*record, resolved),
    {
        match record {
            None => Ok(self.default.clone()),
            Some(r) => T::try_from_json(&r.value),
        }
    }

    /// Puts a resolved value and its record in place, or hands the error on
    /// and changes nothing.
    fn commit(&mut self, record: Option<CurrentValue>, resolved: Result<T, FromJsonError>) -> (outcome:
        Result<Option<CurrentValue>, FromJsonError>)
        ensures
            Self::committed(*old(self), record, resolved, *final(self), outcome),
    {
        match resolved {
            Ok(value) => {
                self.value = value;
                let mut record = record;
                std::mem::swap(&mut self.current_value, &mut record);
                Ok(record)
            },
            Err(error) => Err(error),
        }
    }

    /// Sets the flag to what `record` stands for, or back to its default
    /// for `None`, and returns the record it held before. The record is
    /// decoded before anything is changed: where that fails the flag stays
    /// as it was and the error is returned.
    pub fn try_update(&mut self, value: Option<CurrentValue>) -> (outcome: Result<
        Option<CurrentValue>,
        FromJsonError,
    >)
        ensures
            Self::updated(*old(self), value, *final(self), outcome),
            old(self).wf() ==> final(self).wf(),
            value is None ==> outcome is Ok,
    {
        let resolved = self.resolve(&value);
        self.commit(value, resolved)
    }

    /// The flag's name.
    pub fn key(&self) -> (key: &'static str)
        ensures
            key@ == self@.key,
    {
        self.key
    }

    /// The flag's value.
    pub fn value(&self) -> (value: &T)
        ensures
            *value == self@.value,
    {
        &self.value
    }
}

} // verus!
