//! What holds of the flags and of the registry whatever they are used for,
//! stated over the relations that the functions' contracts use.

use crate::definition::FeatureDefinition;
use crate::feattle::Feattle;
use crate::feattle_value::{decodes, encodes, round_trips, FeattleValue};
use crate::json::FromJsonError;
use crate::persist::{CurrentValue, CurrentValues, Timestamp};
use crate::registry::{
    flag_reloaded, lemma_position, position, shows, snapshot, struct_updated, FeattlesStruct,
    FlagState, InnerFeattles,
};
use vstd::prelude::*;

verus! {

/// A copy of a value of `T` is that value: `clone` is faithful.
pub open spec fn clones_exactly<T: Clone>() -> bool {
    forall|value: T, copy: T| #[trigger] cloned(value, copy) ==> copy == value
}

/// The types that the library has a codec for are copied faithfully.
pub proof fn lemma_supplied_types_clone_exactly()
    ensures
        clones_exactly::<bool>(),
        clones_exactly::<i32>(),
        clones_exactly::<i64>(),
        clones_exactly::<String>(),
{
}

/// A flag that holds no record holds a copy of its default, and its
/// definition names nobody who set it and no time at which it was set. This
/// is so of a flag just made, and of one that was set back. Where copies are
/// faithful the value is the default, and the value that the definition
/// shows is the default as the codec writes it.
pub proof fn lemma_unset_flag_is_default<T: FeattleValue + Clone>(
    cell: Feattle<T>,
    definition: FeatureDefinition,
)
    requires
        cell.wf(),
        cell@.current_value is None,
        cell.described_by(definition),
    ensures
        cloned(cell@.default, cell@.value),
        definition.modified_at is None,
        definition.modified_by is None,
        encodes(cell@.default, definition.default),
        clones_exactly::<T>() ==> cell@.value == cell@.default && encodes(
            cell@.default,
            definition.value,
        ),
{
}

/// With a codec that reads back what it writes, the value and the default
/// that a definition shows are read back as the flag's value and default.
pub proof fn lemma_definition_reads_back<T: FeattleValue + Clone>(
    cell: Feattle<T>,
    definition: FeatureDefinition,
    value_read: Result<T, FromJsonError>,
    default_read: Result<T, FromJsonError>,
)
    requires
        round_trips::<T>(),
        cell.described_by(definition),
        decodes::<T>(definition.value, value_read),
        decodes::<T>(definition.default, default_read),
    ensures
        value_read == Ok::<T, FromJsonError>(cell@.value),
        default_read == Ok::<T, FromJsonError>(cell@.default),
{
}

/// Two definitions of one flag name the same flag, describe it alike, and
/// agree on who set it when. With a codec that reads back what it writes,
/// what they show as value and as default is read back alike.
pub proof fn lemma_definitions_agree<T: FeattleValue + Clone>(
    cell: Feattle<T>,
    one: FeatureDefinition,
    other: FeatureDefinition,
    one_read: Result<T, FromJsonError>,
    other_read: Result<T, FromJsonError>,
)
    requires
        cell.described_by(one),
        cell.described_by(other),
        decodes::<T>(one.value, one_read),
        decodes::<T>(other.value, other_read),
    ensures
        one.key@ == other.key@,
        one.description@ == other.description@,
        one.modified_at == other.modified_at,
        one.modified_by == other.modified_by,
        round_trips::<T>() ==> one_read == other_read,
{
}

/// Setting a flag back hands out the record it held and leaves it with no
/// record and a copy of its default, which its definition shows with nobody
/// who set it and no time. Where copies are faithful the value is the
/// default.
pub proof fn lemma_reset_flag_is_default<T: FeattleValue + Clone>(
    pre: Feattle<T>,
    post: Feattle<T>,
    outcome: Result<Option<CurrentValue>, FromJsonError>,
    definition: FeatureDefinition,
)
    requires
        Feattle::updated(pre, None, post, outcome),
        post.described_by(definition),
    ensures
        outcome == Ok::<Option<CurrentValue>, FromJsonError>(pre@.current_value),
        post@.current_value is None,
        post@.default == pre@.default,
        cloned(post@.default, post@.value),
        clones_exactly::<T>() ==> post@.value == pre@.default,
        definition.modified_at is None,
        definition.modified_by is None,
{
}

/// A record that the flag refuses changes nothing: after the failed update
/// the flag holds the value and the record it held before.
pub proof fn lemma_refused_record_changes_nothing<T: FeattleValue + Clone>(
    pre: Feattle<T>,
    record: CurrentValue,
    post: Feattle<T>,
    outcome: Result<Option<CurrentValue>, FromJsonError>,
)
    requires
        Feattle::updated(pre, Some(record), post, outcome),
        outcome is Err,
    ensures
        post == pre,
        post@.value == pre@.value,
        post@.current_value == pre@.current_value,
{
}

/// Of two updates that the flag takes one after the other, the second hands
/// back the record that the first put in.
pub proof fn lemma_update_returns_previous<T: FeattleValue + Clone>(
    start: Feattle<T>,
    first: CurrentValue,
    between: Feattle<T>,
    first_outcome: Result<Option<CurrentValue>, FromJsonError>,
    second: CurrentValue,
    end: Feattle<T>,
    second_outcome: Result<Option<CurrentValue>, FromJsonError>,
)
    requires
        Feattle::updated(start, Some(first), between, first_outcome),
        first_outcome is Ok,
        Feattle::updated(between, Some(second), end, second_outcome),
        second_outcome is Ok,
    ensures
        second_outcome == Ok::<Option<CurrentValue>, FromJsonError>(Some(first)),
{
}

/// A reload sets back every flag whose name the records before held and
/// the new records do not: afterwards the flag holds no record.
pub proof fn lemma_removed_key_is_reset<FS: FeattlesStruct>(
    pre: InnerFeattles<FS>,
    new_values: CurrentValues,
    now: Timestamp,
    post: InnerFeattles<FS>,
    failed: Seq<Seq<char>>,
    key: Seq<char>,
)
    requires
        InnerFeattles::reloaded(pre, new_values, now, post, failed),
        snapshot(pre.current_values).dom().contains(key),
        !new_values@.dom().contains(key),
        position(pre.feattles_struct.flags(), key) is Some,
    ensures
        ({
            let i = position(pre.feattles_struct.flags(), key)->0;
            &&& 0 <= i < post.feattles_struct.flags().len()
            &&& post.feattles_struct.flags()[i].key == key
            &&& post.feattles_struct.flags()[i].current_value is None
        }),
{
    let before = pre.feattles_struct.flags();
    lemma_position(before, key);
    let i = position(before, key)->0;
    assert(flag_reloaded(
        before,
        i,
        new_values@.dom(),
        new_values@,
        snapshot(pre.current_values).dom(),
        post.feattles_struct.flags()[i],
        failed,
    ));
}

/// A reload sets a flag back to its default where the records before held
/// the flag's name and the new records do not: afterwards the flag holds no
/// record, and its value is a copy of its default: the default itself where
/// copies are faithful.
pub proof fn lemma_removed_flag_is_default<T: FeattleValue + Clone>(
    pre: InnerFeattles<Feattle<T>>,
    new_values: CurrentValues,
    now: Timestamp,
    post: InnerFeattles<Feattle<T>>,
    failed: Seq<Seq<char>>,
)
    requires
        pre.feattles_struct.wf(),
        InnerFeattles::reloaded(pre, new_values, now, post, failed),
        snapshot(pre.current_values).dom().contains(pre.feattles_struct@.key),
        !new_values@.dom().contains(pre.feattles_struct@.key),
    ensures
        post.feattles_struct@.current_value is None,
        post.feattles_struct@.default == pre.feattles_struct@.default,
        cloned(post.feattles_struct@.default, post.feattles_struct@.value),
        clones_exactly::<T>() ==> post.feattles_struct@.value == pre.feattles_struct@.default,
{
    let key = pre.feattles_struct@.key;
    lemma_position(pre.feattles_struct.flags(), key);
    lemma_removed_key_is_reset(pre, new_values, now, post, failed, key);
}

/// An update under a name that no flag has changes no flag and gives
/// `Ok(None)`, whatever the record.
pub proof fn lemma_unknown_key_is_ignored(
    pre: Seq<FlagState>,
    key: Seq<char>,
    value: Option<CurrentValue>,
    post: Seq<FlagState>,
    outcome: Result<Option<CurrentValue>, FromJsonError>,
)
    requires
        struct_updated(pre, key, value, post, outcome),
        position(pre, key) is None,
    ensures
        outcome == Ok::<Option<CurrentValue>, FromJsonError>(None),
        post == pre,
{
}

/// An update under a name that no flag has changes no definition, however
/// many flags the struct holds: whatever shows the flags afterwards shows
/// the flags as they were, each definition its flag.
pub proof fn lemma_unknown_key_keeps_every_definition<FS: FeattlesStruct>(
    pre: FS,
    key: Seq<char>,
    value: Option<CurrentValue>,
    post: FS,
    outcome: Result<Option<CurrentValue>, FromJsonError>,
    after: Seq<FeatureDefinition>,
)
    requires
        struct_updated(pre.flags(), key, value, post.flags(), outcome),
        position(pre.flags(), key) is None,
        shows(post.flags(), after),
    ensures
        shows(pre.flags(), after),
        after.len() == pre.flags().len(),
        forall|i: int| 0 <= i < after.len() ==> pre.flags()[i].shown(#[trigger] after[i]),
{
}

} // verus!
