//! Record tests: dotted-path access, typed reads and predicate checks.

use crossgate::dict::get;
use crossgate::dict::remove;
use crossgate::record::{from_map, validate};
use crossgate::value::{Num, Unstructed, Val};

fn conv(v: &serde_json::Value) -> Val {
    match v {
        serde_json::Value::Null => Val::Null,
        serde_json::Value::Bool(b) => Val::Bool(*b),
        serde_json::Value::Number(n) => {
            if let Some(i) = n.as_i64() {
                Val::Num(Num::from_i64(i))
            } else if let Some(u) = n.as_u64() {
                Val::Num(Num::from_u64(u))
            } else {
                panic!("no floating numbers in these tests")
            }
        }
        serde_json::Value::String(s) => Val::Str(s.clone()),
        serde_json::Value::Array(items) => Val::List(items.iter().map(conv).collect()),
        serde_json::Value::Object(m) => {
            let mut entries = Vec::new();
            for (k, v) in m {
                entries.push((k.clone(), conv(v)));
            }
            Val::Obj(from_map(entries))
        }
    }
}

fn from_str(s: &str) -> Result<Unstructed, String> {
    match serde_json::from_str::<serde_json::Value>(s) {
        Ok(serde_json::Value::Object(m)) => {
            let mut entries = Vec::new();
            for (k, v) in &m {
                entries.push((k.clone(), conv(v)));
            }
            Ok(from_map(entries))
        }
        Ok(_) => Err("not an object".to_string()),
        Err(e) => Err(e.to_string()),
    }
}

const DATA: &str = r#"
    {
        "name": "John Doe",
        "age": 43,
        "phones": [
            "+44 1234567",
            "+44 2345678"
        ],
        "test":{
            "aa":"bb",
            "cc":{
                "dd":"cc"
            }
        }
    }"#;

#[test]
fn test_get() {
    let map = &mut from_str(DATA).unwrap();

    assert!(crossgate::record::val_eq(&get(map, "test.aa.aa.cc"), &Val::Null));

    assert!(crossgate::record::val_eq(
        &get(map, "test.aa"),
        &Val::Str("bb".to_string())
    ));

    assert!(crossgate::record::val_eq(
        &get(map, "test.cc.dd"),
        &Val::Str("cc".to_string())
    ));
}

#[test]
fn test_set() {
    let map = &mut from_str(DATA).unwrap();

    crossgate::dict::set(map, "test.aa.aa.cc", &Val::Str("new_test_data".to_string()));

    assert!(crossgate::record::val_eq(
        &get(map, "test.aa.aa.cc"),
        &Val::Str("new_test_data".to_string())
    ));
}

#[test]
fn test_remove() {
    let map = &mut from_str(DATA).unwrap();

    remove(map, "age");

    assert!(crossgate::record::val_eq(&get(map, "age"), &Val::Null));

    remove(map, "test.aa");

    assert!(crossgate::record::val_eq(&get(map, "test.aa"), &Val::Null));
}

#[test]
fn mod_test_basic() {
    let mut item = match from_str(r#"{"abc":123,"name":"lijim"}"#) {
        Ok(item) => item,
        Err(e) => panic!("{}", e),
    };

    assert_eq!(item.get_u64("abc", 0), 123);

    assert_eq!(item.match_by_predicate("abc=123").unwrap(), true);

    assert_eq!(item.match_by_predicate("name='lijimin'").unwrap(), false);

    assert_eq!(
        item.match_by_predicate("name='lijim' && abc=123").unwrap(),
        true
    );

    item.copy_field("cde", "abc");

    assert_eq!(item.get_u64("cde", 0), 123);

    item.change_fields(&vec![("name".to_string(), "name2".to_string())]);
    assert_eq!(item.get_string("name2", ""), "lijim".to_string());
}

#[test]
fn test_validate() {
    let item = from_str(r#"{"a":1,"b":2}"#).unwrap();

    validate(
        &item,
        &vec![
            ("a=1".to_string(), "a 必须等于1".to_string(), true),
            ("a!=1".to_string(), "a 必须等于1".to_string(), false),
        ],
    )
    .unwrap();
}

#[test]
fn test_macro() {
    let mut item = Unstructed::new();
    item.set("a", &Val::Num(Num::from_i64(1)));
    item.set("b", &Val::Num(Num::from_i64(2)));
    item.set("g", &Val::Str("abc".to_string()));
    item.set(
        "z",
        &Val::List(vec![
            Val::Num(Num::from_i64(1)),
            Val::Num(Num::from_i64(2)),
            Val::Num(Num::from_i64(3)),
        ]),
    );

    assert_eq!(item.get_u64("a", 0), 1);
    assert_eq!(item.get_string("g", ""), "abc");
    assert!(crossgate::record::val_eq(
        &item.get("z"),
        &Val::List(vec![
            Val::Num(Num::from_i64(1)),
            Val::Num(Num::from_i64(2)),
            Val::Num(Num::from_i64(3)),
        ])
    ));
}

#[test]
fn test_keys_cut_remove_fields() {
    let mut item = from_str(r#"{"a":1,"b":2,"c":3}"#).unwrap();
    let keys = item.keys();
    assert_eq!(keys.len(), 3);

    let cut = item.cut(&vec!["a".to_string(), "c".to_string(), "missing".to_string()]);
    assert_eq!(cut.keys().len(), 2);
    assert_eq!(cut.get_u64("a", 0), 1);
    assert_eq!(cut.get_u64("c", 0), 3);

    item.remove_fields(&vec!["a".to_string(), "b".to_string()]);
    assert_eq!(item.keys().len(), 1);
    assert_eq!(item.get_u64("c", 0), 3);
}

#[test]
fn test_set_creates_interior_maps() {
    let mut item = Unstructed::new();
    item.set("a.b.c", &Val::Num(Num::from_i64(7)));
    assert_eq!(item.get_u64("a", 0), 0);
    assert_eq!(item.get_u64("a.b.c", 0), 7);
    assert!(crossgate::record::val_eq(
        &item.get("a.b.c"),
        &Val::Num(Num::from_i64(7))
    ));
}
