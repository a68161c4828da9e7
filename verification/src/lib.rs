//! A typed, live-reloadable registry of feature flags.
//!
//! A flag is a [`Feattle`]: a named cell that holds a typed value, its default
//! and the persisted record the value was read from, if any. Flags are grouped
//! in a struct that implements [`FeattlesStruct`], and [`InnerFeattles`] holds
//! that struct together with the snapshot it was last brought in line with.
//! Every change goes through a validate-then-swap step: a record that does not
//! decode leaves the flag as it was.
//!
//! A value type becomes a flag's type by implementing [`FeattleValue`]; the
//! library does so for `bool`, `i32`, `i64` and `String`. The records travel
//! as `serde_json` values, which the library carries without looking inside.
//! Locking and storage are left to the caller, who hands in the records
//! loaded and takes back the records to save.

pub mod definition;
pub mod feattle;
pub mod feattle_value;
pub mod json;
pub mod laws;
pub mod persist;
pub mod registry;
mod text;

pub use definition::{FeatureDefinition, SerializedFormat, StringFormat};
pub use feattle::{Feattle, FeattleView};
pub use feattle_value::FeattleValue;
pub use json::{FromJsonError, Json, JsonKind, JsonNumber, ParseError};
pub use persist::{CurrentValue, CurrentValues, Timestamp, FIRST_SECOND, LAST_SECOND};
pub use registry::{FeattlesStruct, FlagState, InnerFeattles, LastReload};
