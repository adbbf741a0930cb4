use record_store::value::{Array, Id, Object, Thing, Value};

fn strand(s: &str) -> Value {
    Value::Strand(s.to_string())
}

#[test]
fn new_object_has_no_fields() {
    let obj = Object::new();
    assert!(!obj.contains_key("title"));
    assert!(obj.get("title").is_none());
    assert!(obj.into_entries().is_empty());
}

#[test]
fn insert_then_get() {
    let mut obj = Object::new();
    obj.insert("title".to_string(), strand("person#1"));
    obj.insert("marketing".to_string(), Value::Bool(true));
    assert!(obj.contains_key("title"));
    assert!(obj.contains_key("marketing"));
    assert!(!obj.contains_key("name"));
    assert!(matches!(obj.get("title"), Some(Value::Strand(s)) if s == "person#1"));
    assert!(matches!(obj.get("marketing"), Some(Value::Bool(true))));
}

#[test]
fn insert_replaces_a_field_of_the_same_name() {
    let mut obj = Object::new();
    obj.insert("title".to_string(), strand("old"));
    obj.insert("other".to_string(), Value::Number(1));
    obj.insert("title".to_string(), strand("new"));
    assert!(matches!(obj.get("title"), Some(Value::Strand(s)) if s == "new"));
    assert!(matches!(obj.get("other"), Some(Value::Number(1))));
    assert_eq!(obj.into_entries().len(), 2);
}

#[test]
fn remove_takes_the_field_out() {
    let mut obj = Object::new();
    obj.insert("a".to_string(), Value::Number(1));
    obj.insert("b".to_string(), Value::Number(2));
    obj.insert("c".to_string(), Value::Number(3));
    assert!(matches!(obj.remove("b"), Some(Value::Number(2))));
    assert!(!obj.contains_key("b"));
    assert!(obj.remove("b").is_none());
    assert!(matches!(obj.get("a"), Some(Value::Number(1))));
    assert!(matches!(obj.get("c"), Some(Value::Number(3))));
}

#[test]
fn remove_of_a_missing_field_changes_nothing() {
    let mut obj = Object::new();
    obj.insert("a".to_string(), Value::Null);
    assert!(obj.remove("z").is_none());
    assert!(obj.contains_key("a"));
    assert_eq!(obj.into_entries().len(), 1);
}

#[test]
fn into_entries_lists_each_name_once() {
    let mut obj = Object::new();
    obj.insert("x".to_string(), Value::Number(1));
    obj.insert("y".to_string(), Value::Number(2));
    obj.insert("x".to_string(), Value::Number(3));
    let mut entries = obj.into_entries();
    entries.sort_by(|a, b| a.0.cmp(&b.0));
    assert_eq!(entries.len(), 2);
    assert_eq!(entries[0].0, "x");
    assert!(matches!(entries[0].1, Value::Number(3)));
    assert_eq!(entries[1].0, "y");
    assert!(matches!(entries[1].1, Value::Number(2)));
}

#[test]
fn thing_text_of_a_plain_identifier() {
    let thing = Thing { tb: "person".to_string(), id: Id::String("abc".to_string()) };
    assert_eq!(thing.to_raw(), "person:abc");
}

#[test]
fn thing_text_of_a_numeric_identifier() {
    let thing = Thing { tb: "person".to_string(), id: Id::Number(42) };
    assert_eq!(thing.to_raw(), "person:42");
}

#[test]
fn thing_text_sets_off_a_string_of_digits() {
    let thing = Thing { tb: "person".to_string(), id: Id::String("123".to_string()) };
    assert_eq!(thing.to_raw(), "person:⟨123⟩");
}

#[test]
fn thing_text_sets_off_other_characters() {
    let thing = Thing { tb: "person".to_string(), id: Id::String("a-b".to_string()) };
    assert_eq!(thing.to_raw(), "person:⟨a-b⟩");
}

#[test]
fn id_text_is_the_bare_id() {
    assert_eq!(Id::String("abc".to_string()).to_raw(), "abc");
    assert_eq!(Id::String("123".to_string()).to_raw(), "123");
    assert_eq!(Id::String("a-b".to_string()).to_raw(), "a-b");
    assert_eq!(Id::Number(42).to_raw(), "42");
    assert_eq!(Id::Number(0).to_raw(), "0");
    assert_eq!(Id::Number(-7).to_raw(), "-7");
    assert_eq!(Id::Number(i64::MIN).to_raw(), "-9223372036854775808");
}

#[test]
fn array_keeps_its_order() {
    let array = Array(vec![Value::Number(1), Value::Number(2)]);
    assert!(matches!(array.0[0], Value::Number(1)));
    assert!(matches!(array.0[1], Value::Number(2)));
}
