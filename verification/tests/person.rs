use record_store::error::Error;
use record_store::ident::{IdWrapper, Record};
use record_store::person::{
    Name, Person, PersonController, PersonForCreate, PersonForUpdate, PersonMapping, ENTITY,
};
use record_store::store::{Castable, Creatable, Patchable};
use record_store::value::{Array, Id, Object, Thing, Value};

fn strand(s: &str) -> Value {
    Value::Strand(s.to_string())
}

fn name(first: &str, last: &str) -> Name {
    Name { first: first.to_string(), last: last.to_string() }
}

fn person_thing(id: &str) -> Thing {
    Thing { tb: "person".to_string(), id: Id::String(id.to_string()) }
}

fn name_object(first: &str, last: &str) -> Object {
    let mut obj = Object::new();
    obj.insert("first".to_string(), strand(first));
    obj.insert("last".to_string(), strand(last));
    obj
}

fn stored_person(id: &str, title: &str, first: &str, last: &str, marketing: bool) -> Object {
    let mut obj = Object::new();
    obj.insert("id".to_string(), Value::Thing(person_thing(id)));
    obj.insert("title".to_string(), strand(title));
    obj.insert("name".to_string(), Value::Object(name_object(first, last)));
    obj.insert("marketing".to_string(), Value::Bool(marketing));
    obj
}

fn object_of(v: Value) -> Object {
    match v {
        Value::Object(o) => o,
        _ => panic!("an object was expected"),
    }
}

fn merge(mut stored: Object, patch: Object) -> Object {
    for (k, v) in patch.into_entries() {
        stored.insert(k, v);
    }
    stored
}

#[test]
fn name_encodes_as_two_strings() {
    let mut obj = object_of(Value::from(name("Ada", "Lovelace")));
    assert!(matches!(obj.remove("first"), Some(Value::Strand(s)) if s == "Ada"));
    assert!(matches!(obj.remove("last"), Some(Value::Strand(s)) if s == "Lovelace"));
    assert!(obj.into_entries().is_empty());
}

#[test]
fn name_decodes_from_an_object() {
    assert_eq!(Name::try_from(name_object("Ada", "Lovelace")).ok(), Some(name("Ada", "Lovelace")));
}

#[test]
fn name_round_trip() {
    let n = name("name-first-1", "name-last-1");
    assert_eq!(Name::try_from(object_of(Value::from(n.clone()))).ok(), Some(n));
}

#[test]
fn name_reports_the_first_missing_field() {
    let mut only_last = Object::new();
    only_last.insert("last".to_string(), strand("b"));
    assert!(matches!(Name::try_from(only_last), Err(Error::XPropertyNotFound(k)) if k == "first"));
    let mut only_first = Object::new();
    only_first.insert("first".to_string(), strand("a"));
    assert!(matches!(Name::try_from(only_first), Err(Error::XPropertyNotFound(k)) if k == "last"));
    assert!(matches!(Name::try_from(Object::new()), Err(Error::XPropertyNotFound(k)) if k == "first"));
}

#[test]
fn name_refuses_a_field_of_another_shape() {
    let mut obj = Object::new();
    obj.insert("first".to_string(), Value::Number(1));
    obj.insert("last".to_string(), strand("b"));
    assert!(matches!(Name::try_from(obj), Err(Error::XValueNotOfType("String"))));
}

#[test]
fn create_payload_encodes_every_field() {
    let payload = PersonForCreate {
        title: "person#1".to_string(),
        name: name("name-first-1", "name-last-1"),
        marketing: Some(true),
    };
    let mut obj = object_of(Value::from(payload));
    assert!(matches!(obj.remove("title"), Some(Value::Strand(s)) if s == "person#1"));
    assert!(matches!(obj.remove("marketing"), Some(Value::Bool(true))));
    let inner = obj.remove("name");
    assert!(matches!(inner, Some(Value::Object(_))));
    assert!(obj.into_entries().is_empty());
}

#[test]
fn create_payload_without_marketing_stores_false() {
    let payload = PersonForCreate { title: "t".to_string(), name: name("a", "b"), marketing: None };
    let mut obj = object_of(payload.content());
    assert!(matches!(obj.remove("marketing"), Some(Value::Bool(false))));
}

#[test]
fn update_payload_encodes_only_what_is_present() {
    let only_title =
        PersonForUpdate { title: Some("new_title".to_string()), name: None, marketing: None };
    let mut obj = only_title.patch();
    assert!(matches!(obj.remove("title"), Some(Value::Strand(s)) if s == "new_title"));
    assert!(obj.into_entries().is_empty());

    let nothing = PersonForUpdate { title: None, name: None, marketing: None };
    assert!(object_of(Value::from(nothing)).into_entries().is_empty());

    let all = PersonForUpdate {
        title: Some("t".to_string()),
        name: Some(name("a", "b")),
        marketing: Some(false),
    };
    let mut obj = object_of(Value::from(all));
    assert!(obj.contains_key("title"));
    assert!(obj.contains_key("name"));
    assert!(matches!(obj.remove("marketing"), Some(Value::Bool(false))));
}

#[test]
fn person_decodes_with_the_canonical_identifier() {
    let person = Person::try_from(stored_person("abc", "person#1", "f", "l", true)).ok();
    assert_eq!(
        person,
        Some(Person {
            id: "person:abc".to_string(),
            title: "person#1".to_string(),
            name: name("f", "l"),
            marketing: true,
        })
    );
}

#[test]
fn person_accepts_a_string_identifier() {
    let mut obj = stored_person("abc", "t", "f", "l", false);
    obj.insert("id".to_string(), strand("person:xyz"));
    assert!(matches!(Person::try_from(obj), Ok(p) if p.id == "person:xyz"));
}

#[test]
fn person_error_order() {
    let mut obj = stored_person("abc", "t", "f", "l", false);
    obj.remove("name");
    obj.remove("id");
    assert!(matches!(Person::try_from(obj), Err(Error::XPropertyNotFound(k)) if k == "name"));

    let mut obj = stored_person("abc", "t", "f", "l", false);
    obj.insert("name".to_string(), strand("no object"));
    obj.remove("id");
    assert!(matches!(Person::try_from(obj), Err(Error::XValueNotOfType("Object"))));

    let mut obj = stored_person("abc", "t", "f", "l", false);
    obj.insert("name".to_string(), Value::Object(Object::new()));
    obj.remove("id");
    assert!(matches!(Person::try_from(obj), Err(Error::XPropertyNotFound(k)) if k == "id"));

    let mut obj = stored_person("abc", "t", "f", "l", false);
    obj.insert("name".to_string(), Value::Object(Object::new()));
    obj.remove("title");
    assert!(matches!(Person::try_from(obj), Err(Error::XPropertyNotFound(k)) if k == "title"));

    let mut obj = stored_person("abc", "t", "f", "l", false);
    obj.insert("name".to_string(), Value::Object(Object::new()));
    obj.remove("marketing");
    assert!(matches!(Person::try_from(obj), Err(Error::XPropertyNotFound(k)) if k == "first"));

    let mut obj = stored_person("abc", "t", "f", "l", false);
    obj.insert("marketing".to_string(), Value::Number(1));
    assert!(matches!(Person::try_from(obj), Err(Error::XValueNotOfType("bool"))));
}

#[test]
fn mapping_decodes_with_the_identifier_in_parts() {
    let mapping = PersonMapping::cast(stored_person("abc", "person#1", "f", "l", true));
    match mapping {
        Ok(m) => {
            assert_eq!(m.id.get_id(), "abc");
            assert_eq!(m.id.get_full_id(), "person:abc");
            assert_eq!(m.title, "person#1");
            assert_eq!(m.name, name("f", "l"));
            assert!(m.marketing);
        }
        Err(_) => panic!("a stored person decodes"),
    }
}

#[test]
fn mapping_needs_a_record_identifier() {
    let mut obj = stored_person("abc", "t", "f", "l", false);
    obj.insert("id".to_string(), strand("person:abc"));
    assert!(matches!(PersonMapping::cast(obj), Err(Error::XValueNotOfType("Thing"))));
    let mut obj = stored_person("abc", "t", "f", "l", false);
    obj.remove("id");
    obj.remove("title");
    assert!(matches!(PersonMapping::cast(obj), Err(Error::XPropertyNotFound(k)) if k == "id"));
    let mut obj = stored_person("abc", "t", "f", "l", false);
    obj.remove("title");
    obj.remove("name");
    assert!(matches!(PersonMapping::cast(obj), Err(Error::XPropertyNotFound(k)) if k == "title"));
}

#[test]
fn person_from_a_mapping_has_the_local_id() {
    let mapping = PersonMapping {
        id: IdWrapper(person_thing("abc")),
        title: "t".to_string(),
        name: name("f", "l"),
        marketing: true,
    };
    assert_eq!(
        Person::try_from(mapping).ok(),
        Some(Person {
            id: "abc".to_string(),
            title: "t".to_string(),
            name: name("f", "l"),
            marketing: true,
        })
    );
}

#[test]
fn created_person_reads_back_with_its_fields() {
    let payload = PersonForCreate {
        title: "person#2".to_string(),
        name: name("name-first-2", "name-last-2"),
        marketing: Some(true),
    };
    let mut stored = object_of(payload.clone().content());
    stored.insert("id".to_string(), Value::Thing(person_thing("k1")));
    let answer = Value::Array(Array(vec![Value::Object(stored)]));
    let person = PersonController::get(answer, "k1").ok();
    assert_eq!(
        person,
        Some(Person {
            id: "k1".to_string(),
            title: payload.title,
            name: payload.name,
            marketing: true,
        })
    );
}

#[test]
fn created_person_without_marketing_reads_back_false() {
    let payload = PersonForCreate { title: "t".to_string(), name: name("a", "b"), marketing: None };
    let mut stored = object_of(Value::from(payload));
    stored.insert("id".to_string(), Value::Thing(person_thing("k2")));
    assert!(matches!(Person::try_from(stored), Ok(p) if !p.marketing && p.id == "person:k2"));
}

#[test]
fn update_of_the_title_alone_keeps_name_and_marketing() {
    let stored = stored_person("abc", "old", "f", "l", true);
    let patch =
        PersonForUpdate { title: Some("new_title".to_string()), name: None, marketing: None }
            .patch();
    let merged = merge(stored, patch);
    assert_eq!(
        Person::try_from(merged).ok(),
        Some(Person {
            id: "person:abc".to_string(),
            title: "new_title".to_string(),
            name: name("f", "l"),
            marketing: true,
        })
    );
}

#[test]
fn update_of_name_and_marketing_keeps_the_title() {
    let stored = stored_person("abc", "old", "f", "l", true);
    let patch = PersonForUpdate {
        title: None,
        name: Some(name("f", "update_last")),
        marketing: Some(false),
    }
    .patch();
    let merged = merge(stored, patch);
    assert!(matches!(PersonMapping::cast(merged), Ok(m)
        if m.title == "old" && m.name == name("f", "update_last") && !m.marketing
            && m.id.get_id() == "abc"));
}

#[test]
fn controller_is_bound_to_the_person_table() {
    assert_eq!(ENTITY, "person");
    let missing = PersonController::get(Value::Array(Array(vec![])), "abc");
    assert!(matches!(missing, Err(Error::XValueNotFound(k)) if k == "person:abc"));
}

#[test]
fn controller_get_refuses_what_is_no_array() {
    assert!(matches!(
        PersonController::get(Value::Null, "abc"),
        Err(Error::XValueNotOfType("Array"))
    ));
    assert!(matches!(
        PersonController::get(Value::Array(Array(vec![Value::Number(1)])), "abc"),
        Err(Error::XValueNotOfType("Object"))
    ));
}

#[test]
fn controller_create_returns_the_full_id() {
    let records = vec![Record { id: IdWrapper(person_thing("abc")) }];
    assert!(matches!(PersonController::create(records), Ok(id) if id == "person:abc"));
    assert!(matches!(PersonController::create(vec![]),
        Err(Error::StoreFailToCreate(m)) if m == "exec_create person got empty result."));
}

#[test]
fn controller_update_and_delete_return_the_full_id() {
    let record = Record { id: IdWrapper(person_thing("abc")) };
    assert!(matches!(PersonController::update(Some(record.clone()), "abc"), Ok(id) if id == "person:abc"));
    assert!(matches!(PersonController::delete(Some(record), "abc"), Ok(id) if id == "person:abc"));
}

#[test]
fn controller_update_and_delete_report_a_missing_record() {
    assert!(matches!(PersonController::update(None, "abc"),
        Err(Error::StoreFailToPatch { method, tb, tid })
            if method == "update" && tb == "person" && tid == "abc"));
    assert!(matches!(PersonController::delete(None, "abc"),
        Err(Error::StoreFailToPatch { method, tb, tid })
            if method == "delete" && tb == "person" && tid == "abc"));
}

#[test]
fn controller_list_decodes_in_order() {
    let answer = Value::Array(Array(vec![
        Value::Object(stored_person("a", "person#1", "f1", "l1", false)),
        Value::Object(stored_person("b", "person#2", "f2", "l2", true)),
    ]));
    match PersonController::list(answer) {
        Ok(persons) => {
            assert_eq!(persons.len(), 2);
            assert_eq!(persons[0].id, "a");
            assert_eq!(persons[0].title, "person#1");
            assert_eq!(persons[1].id, "b");
            assert_eq!(persons[1].name, name("f2", "l2"));
            assert!(persons[1].marketing);
        }
        Err(_) => panic!("stored persons decode"),
    }
    assert!(matches!(PersonController::list(Value::Array(Array(vec![]))), Ok(v) if v.is_empty()));
}

#[test]
fn controller_list_reports_the_first_error() {
    let mut broken = stored_person("b", "t", "f", "l", true);
    broken.remove("title");
    let answer = Value::Array(Array(vec![
        Value::Object(stored_person("a", "t", "f", "l", false)),
        Value::Object(broken),
        Value::Number(3),
    ]));
    assert!(matches!(PersonController::list(answer), Err(Error::XPropertyNotFound(k)) if k == "title"));
    let answer = Value::Array(Array(vec![
        Value::Number(3),
        Value::Object(Object::new()),
    ]));
    assert!(matches!(PersonController::list(answer), Err(Error::XValueNotOfType("Object"))));
    assert!(matches!(PersonController::list(Value::Bool(true)), Err(Error::XValueNotOfType("Array"))));
}
