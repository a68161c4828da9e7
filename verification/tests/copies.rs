use feattle_core::{
    CurrentValue, CurrentValues, Feattle, FeatureDefinition, InnerFeattles, LastReload,
    SerializedFormat, StringFormat, Timestamp,
};
use serde_json::Value;

fn record_of(value: Value, by: &str, seconds: i64) -> CurrentValue {
    CurrentValue { modified_at: Timestamp { seconds, nanos: 7 }, modified_by: by.to_owned(), value }
}

#[test]
fn format_clone_is_the_format_again() {
    let formats = vec![
        SerializedFormat::Bool,
        SerializedFormat::Number,
        SerializedFormat::String(StringFormat::Any),
        SerializedFormat::String(StringFormat::Pattern("[a-z]+")),
        SerializedFormat::String(StringFormat::Choices(&["Low", "High"])),
        SerializedFormat::List(Box::new(SerializedFormat::Bool)),
        SerializedFormat::SetOf(Box::new(SerializedFormat::Number)),
        SerializedFormat::MapOf(
            StringFormat::Choices(&["a", "b"]),
            Box::new(SerializedFormat::Optional(Box::new(SerializedFormat::List(Box::new(
                SerializedFormat::String(StringFormat::Any),
            ))))),
        ),
        SerializedFormat::Optional(Box::new(SerializedFormat::Number)),
    ];
    for format in formats {
        assert_eq!(format.clone(), format);
    }
    assert_ne!(
        SerializedFormat::List(Box::new(SerializedFormat::Bool)).clone(),
        SerializedFormat::SetOf(Box::new(SerializedFormat::Bool))
    );
}

#[test]
fn definition_clone_is_the_definition_again() {
    let definition = FeatureDefinition {
        key: "limit",
        description: "how many at once".to_owned(),
        format: SerializedFormat::Optional(Box::new(SerializedFormat::Number)),
        value: Value::from(3),
        default: Value::Null,
        modified_at: Some(Timestamp { seconds: 5, nanos: 6 }),
        modified_by: Some("alice".to_owned()),
    };
    let copy = definition.clone();
    assert_eq!(copy, definition);
    assert_eq!(copy.key, "limit");
    assert_eq!(copy.description, "how many at once");
    assert_eq!(copy.value, Value::from(3));
    assert_eq!(copy.default, Value::Null);
    assert_eq!(copy.modified_at, Some(Timestamp { seconds: 5, nanos: 6 }));
    assert_eq!(copy.modified_by, Some("alice".to_owned()));
    let unset = FeatureDefinition { modified_at: None, modified_by: None, ..definition };
    assert_eq!(unset.clone(), unset);
}

#[test]
fn flag_clone_holds_what_the_flag_holds_and_goes_its_own_way() {
    let mut flag = Feattle::new("limit", "how many at once", 10i32);
    flag.try_update(Some(record_of(Value::from(25), "alice", 100))).unwrap();
    let mut copy = flag.clone();
    assert_eq!(copy.key(), "limit");
    assert_eq!(*copy.value(), 25);
    assert_eq!(copy.definition(), flag.definition());
    assert_eq!(copy.try_update(None), Ok(Some(record_of(Value::from(25), "alice", 100))));
    assert_eq!(*copy.value(), 10);
    assert_eq!(*flag.value(), 25);
    assert_eq!(flag.definition().modified_by, Some("alice".to_owned()));
}

#[test]
fn snapshot_clone_holds_the_same_records_in_the_same_order() {
    let mut values = CurrentValues::new();
    values.insert("b".to_owned(), record_of(Value::from(1), "alice", 1));
    values.insert("a".to_owned(), record_of(Value::from(2), "bob", 2));
    let mut copy = values.clone();
    assert_eq!(copy.len(), 2);
    assert_eq!(copy.entry(0), Some(("b", &record_of(Value::from(1), "alice", 1))));
    assert_eq!(copy.entry(1), Some(("a", &record_of(Value::from(2), "bob", 2))));
    copy.insert("c".to_owned(), record_of(Value::from(3), "carol", 3));
    assert_eq!(copy.len(), 3);
    assert_eq!(values.len(), 2);
    assert_eq!(CurrentValues::new().clone().len(), 0);
}

#[test]
fn state_clone_holds_the_same_state_and_goes_its_own_way() {
    let flags = (
        Feattle::new("ready", "whether the service is ready", false),
        Feattle::new("limit", "how many at once", 10i64),
    );
    let mut inner = InnerFeattles::new(flags);
    let fresh = inner.clone();
    assert_eq!(fresh.last_reload, LastReload::Never);
    assert!(fresh.current_values.is_none());
    let mut values = CurrentValues::new();
    values.insert("limit".to_owned(), record_of(Value::from(4), "alice", 1));
    inner.reload_at(values, Timestamp { seconds: 9, nanos: 0 });
    let mut copy = inner.clone();
    assert_eq!(copy.last_reload, LastReload::At(Timestamp { seconds: 9, nanos: 0 }));
    assert_eq!(copy.current_values.as_ref().unwrap().len(), 1);
    assert_eq!(
        copy.current_values.as_ref().unwrap().get("limit"),
        Some(&record_of(Value::from(4), "alice", 1))
    );
    assert_eq!(*copy.feattles_struct.1.value(), 4);
    assert_eq!(copy.definitions(), inner.definitions());
    copy.reload_at(CurrentValues::new(), Timestamp { seconds: 10, nanos: 0 });
    assert_eq!(*copy.feattles_struct.1.value(), 10);
    assert_eq!(*inner.feattles_struct.1.value(), 4);
    assert_eq!(inner.last_reload, LastReload::At(Timestamp { seconds: 9, nanos: 0 }));
}
