//! The records that storage keeps: one per flag whose value was set.

use crate::text::same_text;
use serde_json::Value;
use vstd::prelude::*;

verus! {

/// A point in time: whole seconds since 1970-01-01 00:00:00 UTC, leap seconds
/// not counted, and the nanoseconds into that second.
#[derive(Debug, Clone, Copy, PartialEq, Eq, Structural)]
pub struct Timestamp {
    pub seconds: i64,
    pub nanos: u32,
}

/// The first second that `chrono` can hold as a `DateTime<Utc>`: the start
/// of the year -262143.
pub const FIRST_SECOND: i64 = -8_334_601_228_800;

/// The last second that `chrono` can hold as a `DateTime<Utc>`: the end of
/// the year 262142.
pub const LAST_SECOND: i64 = 8_210_266_876_799;

impl Timestamp {
    /// `chrono` can hold this time as a `DateTime<Utc>`: the second lies
    /// within its years, and the nanoseconds stay below a second, or below
    /// two in the last second of a minute, where `chrono` writes a leap
    /// second.
    pub open spec fn in_range(self) -> bool {
        &&& FIRST_SECOND <= self.seconds <= LAST_SECOND
        &&& self.nanos < 2_000_000_000
        &&& self.nanos < 1_000_000_000 || self.seconds % 60 == 59
    }

    /// Whether `chrono` can hold this time as a `DateTime<Utc>`.
    pub fn is_in_range(&self) -> (held: bool)
        ensures
            held == self.in_range(),
    {
        if self.seconds < FIRST_SECOND || self.seconds > LAST_SECOND {
            return false;
        }
        if self.nanos < 1_000_000_000 {
            return true;
        }
        // the second is the last of its minute where the next one starts a minute
        self.nanos < 2_000_000_000 && (self.seconds + 1) % 60 == 0
    }
}

/// The value a flag was set to, with who set it and when.
#[derive(Debug, PartialEq, Eq)]
pub struct CurrentValue {
    pub modified_at: Timestamp,
    pub modified_by: String,
    pub value: Value,
}

impl Clone for CurrentValue {
    fn clone(&self) -> (copy: Self)
        ensures
            copy == *self,
    {
        CurrentValue {
            modified_at: self.modified_at,
            modified_by: self.modified_by.clone(),
            value: self.value.clone(),
        }
    }
}

/// The records that storage holds, one for each flag that was set: a mapping
/// from the flag's name to its record. The entries are kept in the order in
/// which their names first came in, and no name occurs twice.
#[derive(Debug)]
pub struct CurrentValues {
    entries: Vec<(String, CurrentValue)>,
}

/// The mapping that takes each of `keys` to the record at its place.
pub open spec fn map_of(keys: Seq<Seq<char>>, records: Seq<CurrentValue>) -> Map<
    Seq<char>,
    CurrentValue,
> {
    Map::new(|key: Seq<char>| keys.contains(key), |key: Seq<char>| records[keys.index_of(key)])
}

/// With no name twice, the mapping holds each record under its name and
/// nothing else.
pub proof fn lemma_map_of(keys: Seq<Seq<char>>, records: Seq<CurrentValue>)
    requires
        keys.no_duplicates(),
        keys.len() == records.len(),
    ensures
        map_of(keys, records).dom() == keys.to_set(),
        forall|i: int| 0 <= i < keys.len() ==> #[trigger] map_of(keys, records)[keys[i]] == records[i],
{
    assert(map_of(keys, records).dom() =~= keys.to_set());
    assert forall|i: int| 0 <= i < keys.len() implies #[trigger] map_of(keys, records)[keys[i]]
        == records[i] by {
        let j = keys.index_of(keys[i]);
        assert(keys[j] == keys[i]);
    }
}

/// A record put in the place of another is the mapping's new record under
/// that name.
proof fn lemma_map_of_update(
    keys: Seq<Seq<char>>,
    records: Seq<CurrentValue>,
    i: int,
    value: CurrentValue,
)
    requires
        keys.no_duplicates(),
        keys.len() == records.len(),
        0 <= i < keys.len(),
    ensures
        map_of(keys, records.update(i, value)) == map_of(keys, records).insert(keys[i], value),
{
    let after = map_of(keys, records.update(i, value));
    let expected = map_of(keys, records).insert(keys[i], value);
    lemma_map_of(keys, records);
    lemma_map_of(keys, records.update(i, value));
    assert(keys.to_set().contains(keys[i]));
    assert(after.dom() =~= expected.dom());
    assert forall|key: Seq<char>| after.dom().contains(key) implies after[key] == expected[key] by {
        let j = keys.index_of(key);
        assert(keys[j] == key);
    }
    assert(after =~= expected);
}

/// A record put behind the others under a new name is the mapping's record
/// under that name.
proof fn lemma_map_of_push(
    keys: Seq<Seq<char>>,
    records: Seq<CurrentValue>,
    key: Seq<char>,
    value: CurrentValue,
)
    requires
        keys.no_duplicates(),
        keys.len() == records.len(),
        !keys.contains(key),
    ensures
        keys.push(key).no_duplicates(),
        map_of(keys.push(key), records.push(value)) == map_of(keys, records).insert(key, value),
{
    let after = map_of(keys.push(key), records.push(value));
    let expected = map_of(keys, records).insert(key, value);
    assert(keys.push(key).no_duplicates());
    lemma_map_of(keys, records);
    lemma_map_of(keys.push(key), records.push(value));
    assert forall|k: Seq<char>| after.dom().contains(k) <==> expected.dom().contains(k) by {
        if keys.push(key).contains(k) {
            let j = keys.push(key).index_of(k);
            assert(keys.push(key)[j] == k);
            if j < keys.len() {
                assert(keys[j] == k);
            }
        }
        if keys.contains(k) {
            let j = keys.index_of(k);
            assert(keys.push(key)[j] == k);
        }
        if k == key {
            assert(keys.push(key)[keys.len() as int] == k);
        }
    }
    assert(after.dom() =~= expected.dom());
    assert forall|k: Seq<char>| after.dom().contains(k) implies after[k] == expected[k] by {
        let j = keys.push(key).index_of(k);
        assert(keys.push(key)[j] == k);
        if j < keys.len() {
            assert(keys[j] == k);
            assert(records.push(value)[j] == records[j]);
        }
    }
    assert(after =~= expected);
}

impl View for CurrentValues {
    type V = Map<Seq<char>, CurrentValue>;

    open spec fn view(&self) -> Map<Seq<char>, CurrentValue> {
        map_of(self.keys(), self.records())
    }
}

impl CurrentValues {
    #[verifier::type_invariant]
    spec fn distinct(self) -> bool {
        forall|i: int, j: int|
            0 <= i < j < self.entries@.len() ==> self.entries@[i].0@ != self.entries@[j].0@
    }

    /// The names, in the order kept.
    pub closed spec fn keys(&self) -> Seq<Seq<char>> {
        Seq::new(self.entries@.len(), |i: int| self.entries@[i].0@)
    }

    /// The records, each at the place of its name.
    pub closed spec fn records(&self) -> Seq<CurrentValue> {
        Seq::new(self.entries@.len(), |i: int| self.entries@[i].1)
    }

    /// No name occurs twice, and each name has its record.
    pub open spec fn inv(&self) -> bool {
        &&& self.keys().no_duplicates()
        &&& self.keys().len() == self.records().len()
    }

    proof fn lemma_distinct_inv(&self)
        requires
            self.distinct(),
        ensures
            self.inv(),
    {
    }

    /// No records at all.
    pub fn new() -> (values: Self)
        ensures
            values.keys() == Seq::<Seq<char>>::empty(),
            values@ == Map::<Seq<char>, CurrentValue>::empty(),
            values.inv(),
    {
        let values = CurrentValues { entries: Vec::new() };
        assert(values.keys() =~= Seq::<Seq<char>>::empty());
        assert(values@ =~= Map::<Seq<char>, CurrentValue>::empty());
        values
    }

    /// How many records there are.
    pub fn len(&self) -> (n: usize)
        ensures
            n == self.keys().len(),
            self.inv(),
    {
        proof {
            use_type_invariant(self);
            self.lemma_distinct_inv();
        }
        self.entries.len()
    }

    /// The name and the record at a place, or `None` past the last one.
    pub fn entry(&self, index: usize) -> (found: Option<(&str, &CurrentValue)>)
        ensures
            self.inv(),
            match found {
                Some(e) => index < self.keys().len() && e.0@ == self.keys()[index as int] && *e.1
                    == self.records()[index as int],
                None => index >= self.keys().len(),
            },
    {
        proof {
            use_type_invariant(self);
            self.lemma_distinct_inv();
        }
        if index < self.entries.len() {
            let e = &self.entries[index];
            Some((e.0.as_str(), &e.1))
        } else {
            None
        }
    }

    /// Where a name stands, if it is there.
    fn find(&self, key: &str) -> (found: Option<usize>)
        ensures
            self.inv(),
            match found {
                Some(i) => i < self.keys().len() && self.keys()[i as int] == key@,
                None => !self.keys().contains(key@),
            },
    {
        proof {
            use_type_invariant(self);
            self.lemma_distinct_inv();
        }
        let mut i: usize = 0;
        while i < self.entries.len()
            invariant
                self.inv(),
                i <= self.entries@.len(),
                forall|j: int| 0 <= j < i ==> self.keys()[j] != key@,
                self.keys().len() == self.entries@.len(),
            decreases self.entries@.len() - i,
        {
            if same_text(self.entries[i].0.as_str(), key) {
                return Some(i);
            }
            i += 1;
        }
        None
    }

    /// Whether there is a record under the name.
    pub fn contains_key(&self, key: &str) -> (found: bool)
        ensures
            self.inv(),
            found == self@.dom().contains(key@),
    {
        let found = self.find(key);
        proof {
            lemma_map_of(self.keys(), self.records());
        }
        found.is_some()
    }

    /// The record under the name, if there is one.
    pub fn get(&self, key: &str) -> (found: Option<&CurrentValue>)
        ensures
            self.inv(),
            match found {
                Some(record) => self@.dom().contains(key@) && *record == self@[key@],
                None => !self@.dom().contains(key@),
            },
    {
        let found = self.find(key);
        proof {
            lemma_map_of(self.keys(), self.records());
        }
        match found {
            Some(i) => Some(&self.entries[i].1),
            None => None,
        }
    }

    /// Puts a record under a name and returns the record that stood there
    /// before. A name that is new goes behind the others; one that is there
    /// keeps its place.
    pub fn insert(&mut self, key: String, value: CurrentValue) -> (previous: Option<CurrentValue>)
        ensures
            final(self).inv(),
            final(self)@ == old(self)@.insert(key@, value),
            previous == (if old(self)@.dom().contains(key@) {
                Some(old(self)@[key@])
            } else {
                None
            }),
            final(self).keys() == (if old(self)@.dom().contains(key@) {
                old(self).keys()
            } else {
                old(self).keys().push(key@)
            }),
    {
        let ghost before = *self;
        let found = self.find(key.as_str());
        proof {
            use_type_invariant(&*self);
            lemma_map_of(self.keys(), self.records());
        }
        let mut entries: Vec<(String, CurrentValue)> = Vec::new();
        std::mem::swap(&mut self.entries, &mut entries);
        let previous = match found {
            Some(i) => {
                let replaced = entries.remove(i);
                entries.insert(i, (key, value));
                Some(replaced.1)
            },
            None => {
                entries.push((key, value));
                None
            },
        };
        proof {
            assert forall|j: int| 0 <= j < before.entries@.len() implies before.keys()[j]
                == #[trigger] before.entries@[j].0@ by {}
            if found is Some {
                let i = found->0 as int;
                assert(before.keys()[i] == key@);
                assert(entries@ =~= before.entries@.update(i, (key, value)));
            } else {
                assert(entries@ =~= before.entries@.push((key, value)));
                assert forall|j: int| 0 <= j < before.entries@.len() implies before.entries@[j].0@
                    != key@ by {
                    assert(before.keys()[j] == before.entries@[j].0@);
                }
            }
            assert forall|a: int, b: int| 0 <= a < b < entries@.len() implies entries@[a].0@
                != entries@[b].0@ by {
                if a < before.entries@.len() && b < before.entries@.len() {
                    assert(before.entries@[a].0@ != before.entries@[b].0@);
                }
            }
        }
        self.entries = entries;
        proof {
            self.lemma_distinct_inv();
            if found is Some {
                let i = found->0 as int;
                assert(self.keys() =~= before.keys());
                assert(self.records() =~= before.records().update(i, value));
                lemma_map_of_update(before.keys(), before.records(), i, value);
            } else {
                assert(self.keys() =~= before.keys().push(key@));
                assert(self.records() =~= before.records().push(value));
                lemma_map_of_push(before.keys(), before.records(), key@, value);
            }
        }
        previous
    }
}

impl Clone for CurrentValues {
    /// The same names with the same records, in the same order.
    fn clone(&self) -> (copy: Self)
        ensures
            copy.keys() == self.keys(),
            copy.records() == self.records(),
            copy@ == self@,
            copy.inv(),
    {
        proof {
            use_type_invariant(self);
        }
        let mut entries: Vec<(String, CurrentValue)> = Vec::new();
        let mut i: usize = 0;
        while i < self.entries.len()
            invariant
                i <= self.entries@.len(),
                entries@.len() == i,
                forall|j: int| 0 <= j < i ==> (#[trigger] entries@[j]).0@ == self.entries@[j].0@,
                forall|j: int| 0 <= j < i ==> (#[trigger] entries@[j]).1 == self.entries@[j].1,
            decreases self.entries@.len() - i,
        {
            let entry = &self.entries[i];
            entries.push((entry.0.clone(), entry.1.clone()));
            i += 1;
        }
        let copy = CurrentValues { entries };
        proof {
            copy.lemma_distinct_inv();
            assert(copy.keys() =~= self.keys());
            assert(copy.records() =~= self.records());
        }
        copy
    }
}

/// Reads the clock with `std::time::SystemTime::now`, has `chrono` turn it
/// into a `DateTime<Utc>` and takes the seconds and the nanoseconds of that.
/// Nothing is claimed of the result: it is whatever the system's clock says,
/// before 1970 too. `chrono` fails only on a clock that stands outside the
/// years it can hold, more than 262,000 years from now.
#[verifier::external_body]
pub(crate) fn now() -> (time: Timestamp) {
    let time = chrono::DateTime::<chrono::Utc>::from(std::time::SystemTime::now());
    Timestamp { seconds: time.timestamp(), nanos: time.timestamp_subsec_nanos() }
}

} // verus!
