//! The flags of an application as one unit: the struct that holds them, and
//! the state that is kept in line with storage.

use crate::definition::FeatureDefinition;
use crate::feattle::Feattle;
use crate::feattle_value::{accepts, decodes, refuses, FeattleValue};
use crate::json::FromJsonError;
use crate::persist::{lemma_map_of, now, CurrentValue, CurrentValues, Timestamp};
use crate::text::same_text;
use serde_json::Value;
use vstd::prelude::*;

verus! {

/// When the flags were last brought in line with storage.
#[derive(Debug, Clone, Copy, PartialEq, Eq, Structural)]
pub enum LastReload {
    Never,
    At(Timestamp),
}

/// One flag as the struct that holds it presents it: its name, the record
/// it holds, what its codec may make of a JSON value (read a value from it,
/// or refuse it with an error), and the definitions that show the flag as it
/// is.
pub struct FlagState {
    pub key: Seq<char>,
    pub current_value: Option<CurrentValue>,
    pub accepts: spec_fn(Value) -> bool,
    pub refuses: spec_fn(Value, FromJsonError) -> bool,
    pub shown_by: spec_fn(FeatureDefinition) -> bool,
}

impl FlagState {
    /// The flag's codec may read a value from `json`.
    pub open spec fn reads(self, json: Value) -> bool {
        (self.accepts)(json)
    }

    /// The flag's codec may refuse `json` with `error`.
    pub open spec fn rejects(self, json: Value, error: FromJsonError) -> bool {
        (self.refuses)(json, error)
    }

    /// `definition` shows the flag as it is.
    pub open spec fn shown(self, definition: FeatureDefinition) -> bool {
        (self.shown_by)(definition)
    }

    /// `after` is this flag with the record given, or with none: the same
    /// name and the same codec. How it is shown follows its new value.
    pub open spec fn set_to(self, current_value: Option<CurrentValue>, after: FlagState) -> bool {
        after == (FlagState { current_value, shown_by: after.shown_by, ..self })
    }
}

/// The place of the first flag of that name, if there is one. An update
/// under a name goes to that flag.
pub open spec fn position(flags: Seq<FlagState>, key: Seq<char>) -> Option<int>
    decreases flags.len(),
{
    if flags.len() == 0 {
        None
    } else if flags[0].key == key {
        Some(0int)
    } else {
        match position(flags.drop_first(), key) {
            Some(i) => Some(i + 1),
            None => None,
        }
    }
}

/// `position` finds a flag of the name with none of that name before it, or
/// finds none where there is none.
pub proof fn lemma_position(flags: Seq<FlagState>, key: Seq<char>)
    ensures
        match position(flags, key) {
            Some(i) => 0 <= i < flags.len() && flags[i].key == key && forall|j: int|
                0 <= j < i ==> (#[trigger] flags[j]).key != key,
            None => forall|j: int| 0 <= j < flags.len() ==> (#[trigger] flags[j]).key != key,
        },
    decreases flags.len(),
{
    if flags.len() > 0 && flags[0].key != key {
        let rest = flags.drop_first();
        lemma_position(rest, key);
        assert forall|j: int| 1 <= j < flags.len() implies #[trigger] flags[j] == rest[j - 1] by {}
        match position(rest, key) {
            Some(i) => {
                assert(flags[i + 1] == rest[i]);
                assert forall|j: int| 0 <= j < i + 1 implies (#[trigger] flags[j]).key != key by {
                    if j > 0 {
                        assert(flags[j] == rest[j - 1]);
                    }
                }
            },
            None => {
                assert forall|j: int| 0 <= j < flags.len() implies (#[trigger] flags[j]).key
                    != key by {
                    if j > 0 {
                        assert(flags[j] == rest[j - 1]);
                    }
                }
            },
        }
    }
}

/// Two lists with the same names in the same places find a name at the same
/// place.
pub proof fn lemma_position_same_keys(a: Seq<FlagState>, b: Seq<FlagState>, key: Seq<char>)
    requires
        a.len() == b.len(),
        forall|i: int| 0 <= i < a.len() ==> (#[trigger] a[i]).key == b[i].key,
    ensures
        position(a, key) == position(b, key),
{
    lemma_position(a, key);
    lemma_position(b, key);
    match position(a, key) {
        Some(i) => {
            assert(a[i].key == b[i].key);
            match position(b, key) {
                Some(j) => {
                    assert(a[j].key == b[j].key);
                },
                None => {},
            }
        },
        None => {
            match position(b, key) {
                Some(j) => {
                    assert(a[j].key == b[j].key);
                },
                None => {},
            }
        },
    }
}

/// In two lists put end to end a name is found in the first, or else in the
/// second.
pub proof fn lemma_position_concat(a: Seq<FlagState>, b: Seq<FlagState>, key: Seq<char>)
    ensures
        position(a + b, key) == (match position(a, key) {
            Some(i) => Some(i),
            None => match position(b, key) {
                Some(i) => Some(i + a.len()),
                None => None,
            },
        }),
{
    let both = a + b;
    lemma_position(a, key);
    lemma_position(b, key);
    lemma_position(both, key);
    assert forall|j: int| 0 <= j < a.len() implies #[trigger] both[j] == a[j] by {}
    assert forall|j: int| 0 <= j < b.len() implies #[trigger] both[j + a.len()] == b[j] by {}
    match position(both, key) {
        Some(p) => {
            if p < a.len() {
                assert(a[p] == both[p]);
                match position(a, key) {
                    Some(i) => {
                        assert(both[i] == a[i]);
                    },
                    None => {},
                }
            } else {
                assert(b[p - a.len()] == both[p - a.len() + a.len()]);
                match position(a, key) {
                    Some(i) => {
                        assert(both[i] == a[i]);
                    },
                    None => {
                        match position(b, key) {
                            Some(i) => {
                                assert(both[i + a.len()] == b[i]);
                            },
                            None => {},
                        }
                    },
                }
            }
        },
        None => {
            match position(a, key) {
                Some(i) => {
                    assert(both[i] == a[i]);
                },
                None => {
                    match position(b, key) {
                        Some(i) => {
                            assert(both[i + a.len()] == b[i]);
                        },
                        None => {},
                    }
                },
            }
        },
    }
}

/// The flags `post` are the flags `pre` after an update of `key` with
/// `value` that returned `outcome`. A name that no flag has changes nothing
/// and gives `Ok(None)`. Else the first flag of that name takes the record,
/// which its codec can read, and hands back the one it held; or its codec
/// refuses the record with the error returned, and nothing changes. Setting a
/// flag back never fails.
pub open spec fn struct_updated(
    pre: Seq<FlagState>,
    key: Seq<char>,
    value: Option<CurrentValue>,
    post: Seq<FlagState>,
    outcome: Result<Option<CurrentValue>, FromJsonError>,
) -> bool {
    match position(pre, key) {
        None => post == pre && outcome == Ok::<Option<CurrentValue>, FromJsonError>(None),
        Some(i) => match outcome {
            Ok(previous) => {
                &&& previous == pre[i].current_value
                &&& post == pre.update(i, post[i])
                &&& pre[i].set_to(value, post[i])
                &&& value matches Some(record) ==> pre[i].reads(record.value)
            },
            Err(error) => {
                &&& value matches Some(record) && pre[i].rejects(record.value, error)
                &&& post == pre
            },
        },
    }
}

/// The definitions show the flags, one for one and in their order.
pub open spec fn shows(flags: Seq<FlagState>, definitions: Seq<FeatureDefinition>) -> bool {
    &&& definitions.len() == flags.len()
    &&& forall|i: int| 0 <= i < flags.len() ==> flags[i].shown(#[trigger] definitions[i])
}

/// A struct of flags that finds each of them by its name.
pub trait FeattlesStruct: Sized {
    /// What was declared of the flags, which no update changes.
    type Declaration;

    /// What was declared of the flags.
    spec fn declaration(&self) -> Self::Declaration;

    /// The flags in their order.
    spec fn flags(&self) -> Seq<FlagState>;

    /// Each flag's value is what its record stands for.
    spec fn inv(&self) -> bool;

    /// Whether a flag has this name.
    fn has_key(&self, key: &str) -> (found: bool)
        ensures
            found == (position(self.flags(), key@) is Some),
    ;

    /// Updates the flag of this name and returns the record it held. A name
    /// that no flag has is passed over: nothing changes and `Ok(None)` is
    /// returned. A record that the flag cannot read changes nothing either.
    fn try_update(&mut self, key: &str, value: Option<CurrentValue>) -> (outcome: Result<
        Option<CurrentValue>,
        FromJsonError,
    >)
        ensures
            struct_updated(old(self).flags(), key@, value, final(self).flags(), outcome),
            outcome is Err ==> *final(self) == *old(self),
            position(old(self).flags(), key@) is None ==> *final(self) == *old(self),
            old(self).inv() ==> final(self).inv(),
            final(self).declaration() == old(self).declaration(),
    ;

    /// Shows every flag, in their order.
    fn definitions(&self) -> (definitions: Vec<FeatureDefinition>)
        ensures
            shows(self.flags(), definitions@),
    ;
}

/// A flag is a struct of one flag.
impl<T: FeattleValue + Clone> FeattlesStruct for Feattle<T> {
    /// The name, the description and the default.
    type Declaration = (Seq<char>, Seq<char>, T);

    open spec fn declaration(&self) -> (Seq<char>, Seq<char>, T) {
        (self@.key, self@.description, self@.default)
    }

    open spec fn flags(&self) -> Seq<FlagState> {
        seq![
            FlagState {
                key: self@.key,
                current_value: self@.current_value,
                accepts: |json: Value| accepts::<T>(json),
                refuses: |json: Value, error: FromJsonError| refuses::<T>(json, error),
                shown_by: |definition: FeatureDefinition| self.described_by(definition),
            },
        ]
    }

    open spec fn inv(&self) -> bool {
        self.wf()
    }

    fn has_key(&self, key: &str) -> (found: bool) {
        proof {
            lemma_position(self.flags(), key@);
        }
        same_text(self.key(), key)
    }

    fn try_update(&mut self, key: &str, value: Option<CurrentValue>) -> (outcome: Result<
        Option<CurrentValue>,
        FromJsonError,
    >) {
        proof {
            lemma_position(self.flags(), key@);
        }
        if same_text(self.key(), key) {
            let ghost pre = *self;
            let outcome = Feattle::try_update(self, value);
            proof {
                if outcome is Ok {
                    assert(self.flags() =~= pre.flags().update(0, self.flags()[0]));
                    if value is Some {
                        assert(decodes::<T>(value->0.value, Ok(self@.value)));
                    }
                }
            }
            outcome
        } else {
            Ok(None)
        }
    }

    fn definitions(&self) -> (definitions: Vec<FeatureDefinition>) {
        let mut definitions = Vec::new();
        definitions.push(self.definition());
        definitions
    }
}

/// Two structs of flags side by side are a struct of flags: the flags of the
/// first, then those of the second.
impl<A: FeattlesStruct, B: FeattlesStruct> FeattlesStruct for (A, B) {
    type Declaration = (A::Declaration, B::Declaration);

    open spec fn declaration(&self) -> (A::Declaration, B::Declaration) {
        (self.0.declaration(), self.1.declaration())
    }

    open spec fn flags(&self) -> Seq<FlagState> {
        self.0.flags() + self.1.flags()
    }

    open spec fn inv(&self) -> bool {
        self.0.inv() && self.1.inv()
    }

    fn has_key(&self, key: &str) -> (found: bool) {
        proof {
            lemma_position_concat(self.0.flags(), self.1.flags(), key@);
        }
        self.0.has_key(key) || self.1.has_key(key)
    }

    fn try_update(&mut self, key: &str, value: Option<CurrentValue>) -> (outcome: Result<
        Option<CurrentValue>,
        FromJsonError,
    >) {
        let ghost first = self.0.flags();
        let ghost second = self.1.flags();
        proof {
            lemma_position_concat(first, second, key@);
            lemma_position(first, key@);
            lemma_position(second, key@);
        }
        if self.0.has_key(key) {
            let outcome = self.0.try_update(key, value);
            proof {
                if outcome is Ok {
                    let i = position(first, key@)->0;
                    assert(self.0.flags() + second =~= (first + second).update(
                        i,
                        self.0.flags()[i],
                    ));
                }
            }
            outcome
        } else {
            let outcome = self.1.try_update(key, value);
            proof {
                if outcome is Ok && position(second, key@) is Some {
                    let i = position(second, key@)->0;
                    assert(first + self.1.flags() =~= (first + second).update(
                        i + first.len(),
                        self.1.flags()[i],
                    ));
                }
            }
            outcome
        }
    }

    fn definitions(&self) -> (definitions: Vec<FeatureDefinition>) {
        let mut definitions = self.0.definitions();
        let mut rest = self.1.definitions();
        definitions.append(&mut rest);
        definitions
    }
}

/// The records of a snapshot that may not be there yet: none where it is
/// not.
pub open spec fn snapshot(values: Option<CurrentValues>) -> Map<Seq<char>, CurrentValue> {
    match values {
        Some(v) => v@,
        None => Map::empty(),
    }
}

/// The texts of a list of strings.
pub open spec fn names(keys: Seq<String>) -> Seq<Seq<char>> {
    Seq::new(keys.len(), |i: int| keys[i]@)
}

/// What a reload has made of the flag at place `i` of `before`, once the
/// names in `applied` were set to their records in `new` and the names in
/// `reset` were set back. A flag behind another of its name is never
/// reached. A flag whose name is in `applied` holds the new record, which
/// its codec can read, unless its name is among `failed`: then its codec
/// refuses the record and the flag is as it was. A flag whose name is only
/// in `reset` holds no record. Every other flag is as it was.
pub open spec fn flag_reloaded(
    before: Seq<FlagState>,
    i: int,
    applied: Set<Seq<char>>,
    new: Map<Seq<char>, CurrentValue>,
    reset: Set<Seq<char>>,
    after: FlagState,
    failed: Seq<Seq<char>>,
) -> bool {
    let flag = before[i];
    if position(before, flag.key) != Some(i) {
        after == flag
    } else if applied.contains(flag.key) {
        if failed.contains(flag.key) {
            &&& after == flag
            &&& exists|error: FromJsonError| #[trigger] flag.rejects(new[flag.key].value, error)
        } else {
            &&& flag.set_to(Some(new[flag.key]), after)
            &&& flag.reads(new[flag.key].value)
        }
    } else if reset.contains(flag.key) {
        flag.set_to(None, after)
    } else {
        after == flag
    }
}

/// What a reload has made of all the flags, and which names it could not
/// set: each of them once, each a name in `applied` that a flag has.
pub open spec fn progress(
    before: Seq<FlagState>,
    applied: Set<Seq<char>>,
    new: Map<Seq<char>, CurrentValue>,
    reset: Set<Seq<char>>,
    after: Seq<FlagState>,
    failed: Seq<Seq<char>>,
) -> bool {
    &&& after.len() == before.len()
    &&& forall|i: int|
        0 <= i < before.len() ==> flag_reloaded(
            before,
            i,
            applied,
            new,
            reset,
            #[trigger] after[i],
            failed,
        )
    &&& failed.no_duplicates()
    &&& forall|k: Seq<char>| #[trigger]
        failed.contains(k) ==> applied.contains(k) && position(before, k) is Some
}

/// The names of `part` stand in `whole` in the order in which they stand in
/// `part`.
pub open spec fn in_order_of(part: Seq<Seq<char>>, whole: Seq<Seq<char>>) -> bool {
    forall|a: int, b: int|
        0 <= a < b < part.len() ==> whole.index_of(#[trigger] part[a]) < whole.index_of(
            #[trigger] part[b],
        )
}

/// A name that stands in `whole` behind all the names of `part` keeps the
/// order when it is put behind them.
proof fn lemma_in_order_push(part: Seq<Seq<char>>, whole: Seq<Seq<char>>, i: int)
    requires
        whole.no_duplicates(),
        0 <= i < whole.len(),
        in_order_of(part, whole),
        forall|k: Seq<char>| #[trigger] part.contains(k) ==> whole.take(i).to_set().contains(k),
    ensures
        in_order_of(part.push(whole[i]), whole),
{
    let longer = part.push(whole[i]);
    assert(whole[whole.index_of(whole[i])] == whole[i]);
    assert forall|a: int, b: int| 0 <= a < b < longer.len() implies whole.index_of(
        #[trigger] longer[a],
    ) < whole.index_of(#[trigger] longer[b]) by {
        if b == part.len() {
            let k = part[a];
            assert(part.contains(k));
            let j = choose|j: int| 0 <= j < whole.take(i).len() && whole.take(i)[j] == k;
            assert(whole[j] == k);
            assert(whole[whole.index_of(k)] == k);
        } else {
            assert(longer[a] == part[a] && longer[b] == part[b]);
        }
    }
}

/// One more name of a list is one more member of the set of its names.
proof fn lemma_take_next(keys: Seq<Seq<char>>, i: int)
    requires
        0 <= i < keys.len(),
        keys.no_duplicates(),
    ensures
        keys.take(i + 1).to_set() == keys.take(i).to_set().insert(keys[i]),
        !keys.take(i).to_set().contains(keys[i]),
{
    let longer = keys.take(i + 1);
    let shorter = keys.take(i);
    assert forall|k: Seq<char>| longer.to_set().contains(k) <==> shorter.to_set().insert(
        keys[i],
    ).contains(k) by {
        if longer.contains(k) {
            let j = choose|j: int| 0 <= j < longer.len() && longer[j] == k;
            if j < i {
                assert(shorter[j] == k);
            }
        }
        if shorter.contains(k) {
            let j = choose|j: int| 0 <= j < shorter.len() && shorter[j] == k;
            assert(longer[j] == k);
        }
        if k == keys[i] {
            assert(longer[i] == k);
        }
    }
    assert(longer.to_set() =~= shorter.to_set().insert(keys[i]));
    if shorter.contains(keys[i]) {
        let j = choose|j: int| 0 <= j < shorter.len() && shorter[j] == keys[i];
        assert(keys[j] == keys[i]);
    }
}

/// The step of a reload that sets one name to its new record.
proof fn lemma_progress_set(
    before: Seq<FlagState>,
    applied: Set<Seq<char>>,
    new: Map<Seq<char>, CurrentValue>,
    current: Seq<FlagState>,
    failed: Seq<Seq<char>>,
    key: Seq<char>,
    next: Seq<FlagState>,
    outcome: Result<Option<CurrentValue>, FromJsonError>,
)
    requires
        progress(before, applied, new, Set::empty(), current, failed),
        !applied.contains(key),
        struct_updated(current, key, Some(new[key]), next, outcome),
    ensures
        progress(
            before,
            applied.insert(key),
            new,
            Set::empty(),
            next,
            if outcome is Err {
                failed.push(key)
            } else {
                failed
            },
        ),
{
    let failed_after = if outcome is Err {
        failed.push(key)
    } else {
        failed
    };
    let reset = Set::<Seq<char>>::empty();
    assert forall|i: int| 0 <= i < before.len() implies (#[trigger] before[i]).key
        == current[i].key by {
        assert(flag_reloaded(before, i, applied, new, reset, current[i], failed));
    }
    lemma_position_same_keys(before, current, key);
    lemma_position(before, key);
    assert(!failed.contains(key));
    assert forall|k: Seq<char>| failed_after.contains(k) <==> (failed.contains(k) || (outcome is Err
        && k == key)) by {
        if outcome is Err {
            if failed.contains(k) {
                let j = choose|j: int| 0 <= j < failed.len() && failed[j] == k;
                assert(failed_after[j] == k);
            }
            if k == key {
                assert(failed_after[failed.len() as int] == k);
            }
        }
    }
    assert(failed_after.no_duplicates());
    assert forall|i: int| 0 <= i < before.len() implies flag_reloaded(
        before,
        i,
        applied.insert(key),
        new,
        reset,
        #[trigger] next[i],
        failed_after,
    ) by {
        assert(flag_reloaded(before, i, applied, new, reset, current[i], failed));
        lemma_position(before, before[i].key);
    }
    assert forall|k: Seq<char>| #[trigger] failed_after.contains(k) implies applied.insert(
        key,
    ).contains(k) && position(before, k) is Some by {
        if !failed.contains(k) {
            assert(k == key);
        }
    }
}

/// The step of a reload that sets one name back, or passes over it because
/// the new records hold it.
proof fn lemma_progress_reset(
    before: Seq<FlagState>,
    new: Map<Seq<char>, CurrentValue>,
    reset: Set<Seq<char>>,
    current: Seq<FlagState>,
    failed: Seq<Seq<char>>,
    key: Seq<char>,
    next: Seq<FlagState>,
    outcome: Result<Option<CurrentValue>, FromJsonError>,
)
    requires
        progress(before, new.dom(), new, reset, current, failed),
        if new.dom().contains(key) {
            next == current
        } else {
            struct_updated(current, key, None, next, outcome)
        },
    ensures
        progress(before, new.dom(), new, reset.insert(key), next, failed),
        !new.dom().contains(key) ==> outcome is Ok,
{
    assert forall|i: int| 0 <= i < before.len() implies (#[trigger] before[i]).key
        == current[i].key by {
        assert(flag_reloaded(before, i, new.dom(), new, reset, current[i], failed));
    }
    lemma_position_same_keys(before, current, key);
    lemma_position(before, key);
    assert forall|i: int| 0 <= i < before.len() implies flag_reloaded(
        before,
        i,
        new.dom(),
        new,
        reset.insert(key),
        #[trigger] next[i],
        failed,
    ) by {
        assert(flag_reloaded(before, i, new.dom(), new, reset, current[i], failed));
        lemma_position(before, before[i].key);
    }
}

/// What the registry guards: the flags, the records they were last brought
/// in line with, and when that was.
#[derive(Debug)]
pub struct InnerFeattles<FS> {
    pub last_reload: LastReload,
    pub current_values: Option<CurrentValues>,
    pub feattles_struct: FS,
}

impl<FS: Clone> Clone for InnerFeattles<FS> {
    /// The same time of the last reload, the same records, and a copy of the
    /// flags.
    fn clone(&self) -> (copy: Self)
        ensures
            copy.last_reload == self.last_reload,
            copy.current_values is Some == self.current_values is Some,
            snapshot(copy.current_values) == snapshot(self.current_values),
            cloned(self.feattles_struct, copy.feattles_struct),
    {
        InnerFeattles {
            last_reload: self.last_reload,
            current_values: match &self.current_values {
                Some(values) => Some(values.clone()),
                None => None,
            },
            feattles_struct: self.feattles_struct.clone(),
        }
    }
}

impl<FS: FeattlesStruct> InnerFeattles<FS> {
    /// The state `post` is the state `pre` after a reload with the records
    /// `new_values` at the time `now`, which could not set the names in
    /// `failed`, which stand in the order of the new records. Every name of
    /// the new records was set; every name that the records before held and
    /// the new ones do not was set back; the new records and the time were
    /// noted.
    pub open spec fn reloaded(
        pre: Self,
        new_values: CurrentValues,
        now: Timestamp,
        post: Self,
        failed: Seq<Seq<char>>,
    ) -> bool {
        &&& post.last_reload == LastReload::At(now)
        &&& post.current_values == Some(new_values)
        &&& progress(
            pre.feattles_struct.flags(),
            new_values@.dom(),
            new_values@,
            snapshot(pre.current_values).dom(),
            post.feattles_struct.flags(),
            failed,
        )
        &&& in_order_of(failed, new_values.keys())
        &&& pre.feattles_struct.inv() ==> post.feattles_struct.inv()
        &&& post.feattles_struct.declaration() == pre.feattles_struct.declaration()
    }

    /// The state `post` is the state `pre` after the flag `key` was set to
    /// `record` and `outcome` was returned. A record that was refused
    /// changes nothing. Else the flags took it as [`struct_updated`] says,
    /// and the records kept hold it under `key`, also where no flag has that
    /// name.
    pub open spec fn updated_one(
        pre: Self,
        key: Seq<char>,
        record: CurrentValue,
        post: Self,
        outcome: Result<Option<CurrentValue>, FromJsonError>,
    ) -> bool {
        &&& struct_updated(
            pre.feattles_struct.flags(),
            key,
            Some(record),
            post.feattles_struct.flags(),
            outcome,
        )
        &&& match outcome {
            Ok(_) => {
                &&& post.last_reload == pre.last_reload
                &&& post.current_values matches Some(values) && values@ == snapshot(
                    pre.current_values,
                ).insert(key, record)
                &&& pre.feattles_struct.inv() ==> post.feattles_struct.inv()
                &&& post.feattles_struct.declaration() == pre.feattles_struct.declaration()
                &&& position(pre.feattles_struct.flags(), key) is None ==> post.feattles_struct
                    == pre.feattles_struct
            },
            Err(_) => post == pre,
        }
    }

    /// The state before anything was loaded.
    pub fn new(feattles_struct: FS) -> (inner: Self)
        ensures
            inner.last_reload == LastReload::Never,
            inner.current_values is None,
            inner.feattles_struct == feattles_struct,
    {
        InnerFeattles { last_reload: LastReload::Never, current_values: None, feattles_struct }
    }

    /// Brings the flags in line with the records just loaded, as of the
    /// time given, and returns the names whose records were refused.
    pub fn reload_at(&mut self, new_values: CurrentValues, now: Timestamp) -> (failed: Vec<String>)
        ensures
            Self::reloaded(*old(self), new_values, now, *final(self), names(failed@)),
    {
        let ghost before = self.feattles_struct.flags();
        let ghost had_inv = self.feattles_struct.inv();
        let ghost declared = self.feattles_struct.declaration();
        let previous = self.current_values.take();
        let mut failed: Vec<String> = Vec::new();
        let n = new_values.len();
        proof {
            lemma_map_of(new_values.keys(), new_values.records());
            assert(new_values.keys().take(0).to_set() =~= Set::<Seq<char>>::empty());
            assert(names(failed@) =~= Seq::<Seq<char>>::empty());
            assert forall|i: int| 0 <= i < before.len() implies flag_reloaded(
                before,
                i,
                Set::<Seq<char>>::empty(),
                new_values@,
                Set::<Seq<char>>::empty(),
                #[trigger] before[i],
                Seq::<Seq<char>>::empty(),
            ) by {}
        }
        let mut i: usize = 0;
        while i < n
            invariant
                i <= n,
                n == new_values.keys().len(),
                new_values.inv(),
                self.last_reload == old(self).last_reload,
                previous == old(self).current_values,
                had_inv ==> self.feattles_struct.inv(),
                self.feattles_struct.declaration() == declared,
                in_order_of(names(failed@), new_values.keys()),
                progress(
                    before,
                    new_values.keys().take(i as int).to_set(),
                    new_values@,
                    Set::empty(),
                    self.feattles_struct.flags(),
                    names(failed@),
                ),
            decreases n - i,
        {
            let ghost current = self.feattles_struct.flags();
            let ghost failed_before = names(failed@);
            match new_values.entry(i) {
                Some((key, record)) => {
                    let copy = record.clone();
                    let outcome = self.feattles_struct.try_update(key, Some(copy));
                    if outcome.is_err() {
                        failed.push(key.to_owned());
                    }
                    proof {
                        lemma_map_of(new_values.keys(), new_values.records());
                        lemma_take_next(new_values.keys(), i as int);
                        assert(new_values@[key@] == *record);
                        if outcome is Err {
                            assert(names(failed@) =~= failed_before.push(key@));
                            lemma_in_order_push(failed_before, new_values.keys(), i as int);
                        }
                        lemma_progress_set(
                            before,
                            new_values.keys().take(i as int).to_set(),
                            new_values@,
                            current,
                            failed_before,
                            key@,
                            self.feattles_struct.flags(),
                            outcome,
                        );
                    }
                },
                None => {},
            }
            i += 1;
        }
        proof {
            lemma_map_of(new_values.keys(), new_values.records());
            assert(new_values.keys().take(n as int) =~= new_values.keys());
        }
        match &previous {
            Some(values) => {
                let m = values.len();
                proof {
                    assert(values.keys().take(0).to_set() =~= Set::<Seq<char>>::empty());
                }
                let mut j: usize = 0;
                while j < m
                    invariant
                        j <= m,
                        m == values.keys().len(),
                        values.inv(),
                        new_values.inv(),
                        self.last_reload == old(self).last_reload,
                        had_inv ==> self.feattles_struct.inv(),
                        self.feattles_struct.declaration() == declared,
                        in_order_of(names(failed@), new_values.keys()),
                        progress(
                            before,
                            new_values@.dom(),
                            new_values@,
                            values.keys().take(j as int).to_set(),
                            self.feattles_struct.flags(),
                            names(failed@),
                        ),
                    decreases m - j,
                {
                    let ghost current = self.feattles_struct.flags();
                    match values.entry(j) {
                        Some((key, _)) => {
                            let mut outcome: Result<Option<CurrentValue>, FromJsonError> = Ok(None);
                            if !new_values.contains_key(key) {
                                outcome = self.feattles_struct.try_update(key, None);
                            }
                            proof {
                                lemma_take_next(values.keys(), j as int);
                                lemma_progress_reset(
                                    before,
                                    new_values@,
                                    values.keys().take(j as int).to_set(),
                                    current,
                                    names(failed@),
                                    key@,
                                    self.feattles_struct.flags(),
                                    outcome,
                                );
                            }
                        },
                        None => {},
                    }
                    j += 1;
                }
                proof {
                    lemma_map_of(values.keys(), values.records());
                    assert(values.keys().take(m as int) =~= values.keys());
                }
            },
            None => {},
        }
        self.current_values = Some(new_values);
        self.last_reload = LastReload::At(now);
        failed
    }

    /// Brings the flags in line with the records just loaded and notes the
    /// time, which it reads from the system's clock. Returns the names whose
    /// records were refused. Where the caller has the time, or the clock
    /// may stand outside the years that `chrono` can hold, `reload_at` takes
    /// the time as an argument.
    pub fn reload(&mut self, new_values: CurrentValues) -> (failed: Vec<String>)
        ensures
            final(self).last_reload matches LastReload::At(time) && Self::reloaded(
                *old(self),
                new_values,
                time,
                *final(self),
                names(failed@),
            ),
    {
        let time = now();
        self.reload_at(new_values, time)
    }

    /// Sets one flag to a record and keeps the record with the others.
    /// Returns the record that the flag held before. A record that the
    /// flag refuses changes nothing.
    pub fn update_with(&mut self, key: &str, record: CurrentValue) -> (outcome: Result<
        Option<CurrentValue>,
        FromJsonError,
    >)
        ensures
            Self::updated_one(*old(self), key@, record, *final(self), outcome),
    {
        let copy = record.clone();
        match self.feattles_struct.try_update(key, Some(record)) {
            Ok(previous) => {
                let mut values = match self.current_values.take() {
                    Some(values) => values,
                    None => CurrentValues::new(),
                };
                values.insert(key.to_owned(), copy);
                self.current_values = Some(values);
                Ok(previous)
            },
            Err(error) => Err(error),
        }
    }

    /// Sets one flag to a value on behalf of `modified_by`, as of now by the
    /// system's clock, and keeps the record with the others. Returns the
    /// record that the flag held before. It fails only where a flag has the
    /// name and the flag's codec refuses the value: then the error is the
    /// codec's, and nothing changes. Where the caller has the time, or the
    /// clock may stand outside the years that `chrono` can hold,
    /// `update_with` takes the whole record as an argument.
    pub fn update_one(&mut self, key: &str, value: Value, modified_by: String) -> (outcome: Result<
        Option<CurrentValue>,
        FromJsonError,
    >)
        ensures
            match outcome {
                Ok(_) => {
                    &&& final(self).current_values matches Some(values)
                    &&& values@.dom().contains(key@)
                    &&& values@[key@].value == value
                    &&& values@[key@].modified_by == modified_by
                    &&& Self::updated_one(*old(self), key@, values@[key@], *final(self), outcome)
                },
                Err(error) => {
                    &&& *final(self) == *old(self)
                    &&& position(old(self).feattles_struct.flags(), key@) matches Some(i)
                    &&& old(self).feattles_struct.flags()[i].rejects(value, error)
                },
            },
    {
        let record = CurrentValue { modified_at: now(), modified_by, value };
        self.update_with(key, record)
    }

    /// Shows every flag, in their order.
    pub fn definitions(&self) -> (definitions: Vec<FeatureDefinition>)
        ensures
            shows(self.feattles_struct.flags(), definitions@),
    {
        self.feattles_struct.definitions()
    }
}

} // verus!
