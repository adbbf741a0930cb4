use record_store::error::Error;
use record_store::ident::{IdWrapper, Record};
use record_store::page::Page;
use record_store::store::{
    decode_create, decode_delete, decode_get, decode_list, decode_update, get_query, list_query,
};
use record_store::value::{Array, Id, Object, Thing, Value};

fn record(tb: &str, id: &str) -> Record {
    Record { id: IdWrapper(Thing { tb: tb.to_string(), id: Id::String(id.to_string()) }) }
}

fn object_with(key: &str, n: i64) -> Value {
    let mut obj = Object::new();
    obj.insert(key.to_string(), Value::Number(n));
    Value::Object(obj)
}

#[test]
fn get_query_binds_table_and_id() {
    let q = get_query("person", "abc");
    assert_eq!(q.sql, "SELECT * FROM type::thing($tb, $tid)");
    assert_eq!(
        q.bindings,
        vec![
            ("tb".to_string(), "person".to_string()),
            ("tid".to_string(), "abc".to_string())
        ]
    );
}

#[test]
fn list_query_without_a_page_has_no_limit() {
    match list_query("person", None) {
        Ok(q) => {
            assert_eq!(q.sql, "SELECT * FROM type::table($tb)");
            assert_eq!(q.bindings, vec![("tb".to_string(), "person".to_string())]);
        }
        Err(_) => panic!("listing everything is always accepted"),
    }
}

#[test]
fn list_query_with_a_page_has_limit_and_start() {
    let sql = list_query("person", Some(Page::new(10, 0))).map(|q| q.sql).ok();
    assert_eq!(sql, Some("SELECT * FROM type::table($tb) LIMIT 10 START 0".to_string()));
    let sql = list_query("person", Some(Page::new(10, 3))).map(|q| q.sql).ok();
    assert_eq!(sql, Some("SELECT * FROM type::table($tb) LIMIT 10 START 30".to_string()));
    let sql = list_query("person", Some(Page::new(100, u32::MAX))).map(|q| q.sql).ok();
    assert_eq!(
        sql,
        Some("SELECT * FROM type::table($tb) LIMIT 100 START 429496729500".to_string())
    );
    let sql = list_query("person", Some(Page::new(0, 9))).map(|q| q.sql).ok();
    assert_eq!(sql, Some("SELECT * FROM type::table($tb) LIMIT 0 START 0".to_string()));
}

#[test]
fn list_query_enforces_the_size_bound() {
    assert!(list_query("person", Some(Page::new(100, 0))).is_ok());
    assert!(matches!(
        list_query("person", Some(Page::new(101, 0))),
        Err(Error::ErrLimitOutOfBonds)
    ));
}

#[test]
fn decode_get_takes_the_first_record() {
    let answer = Value::Array(Array(vec![object_with("a", 1), object_with("b", 2)]));
    let r: Result<Object, Error> = decode_get("person", "abc", answer);
    assert!(matches!(r, Ok(o) if o.contains_key("a") && !o.contains_key("b")));
}

#[test]
fn decode_get_of_an_empty_answer_is_not_found() {
    let r: Result<Object, Error> = decode_get("person", "abc", Value::Array(Array(vec![])));
    assert!(matches!(r, Err(Error::XValueNotFound(k)) if k == "person:abc"));
}

#[test]
fn decode_get_refuses_other_shapes() {
    let r: Result<Object, Error> = decode_get("person", "abc", Value::Nothing);
    assert!(matches!(r, Err(Error::XValueNotOfType("Array"))));
    let r: Result<Object, Error> =
        decode_get("person", "abc", Value::Array(Array(vec![Value::Bool(true)])));
    assert!(matches!(r, Err(Error::XValueNotOfType("Object"))));
}

#[test]
fn decode_list_keeps_the_order() {
    let answer =
        Value::Array(Array(vec![object_with("a", 1), object_with("b", 2), object_with("c", 3)]));
    let r: Result<Vec<Object>, Error> = decode_list(answer);
    match r {
        Ok(v) => {
            assert_eq!(v.len(), 3);
            assert!(v[0].contains_key("a"));
            assert!(v[1].contains_key("b"));
            assert!(v[2].contains_key("c"));
        }
        Err(_) => panic!("objects decode"),
    }
}

#[test]
fn decode_list_refuses_other_shapes() {
    let r: Result<Vec<Object>, Error> = decode_list(Value::Strand("x".to_string()));
    assert!(matches!(r, Err(Error::XValueNotOfType("Array"))));
    let r: Result<Vec<Object>, Error> =
        decode_list(Value::Array(Array(vec![object_with("a", 1), Value::Null])));
    assert!(matches!(r, Err(Error::XValueNotOfType("Object"))));
}

#[test]
fn decode_create_takes_the_first_record() {
    let r = decode_create("person", vec![record("person", "a"), record("person", "b")]);
    assert!(matches!(r, Ok(rec) if rec.get_id() == "a" && rec.get_table() == "person"
        && rec.get_full_id() == "person:a"));
}

#[test]
fn decode_create_of_nothing_is_a_failure() {
    assert!(matches!(decode_create("person", vec![]),
        Err(Error::StoreFailToCreate(m)) if m == "exec_create person got empty result."));
}

#[test]
fn decode_update_and_delete() {
    assert!(matches!(decode_update("person", "a", Some(record("person", "a"))), Ok(r) if r.get_id() == "a"));
    assert!(matches!(decode_delete("person", "a", Some(record("person", "a"))), Ok(r) if r.get_id() == "a"));
    assert!(matches!(decode_update("person", "a", None),
        Err(Error::StoreFailToPatch { method, tb, tid })
            if method == "update" && tb == "person" && tid == "a"));
    assert!(matches!(decode_delete("person", "a", None),
        Err(Error::StoreFailToPatch { method, tb, tid })
            if method == "delete" && tb == "person" && tid == "a"));
}
