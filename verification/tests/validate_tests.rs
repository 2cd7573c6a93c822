//! Validator tests: the validation dialect across record pairs.

use crossgate::cond::{Span, Value};
use crossgate::record::from_map;
use crossgate::validate::{validate_match, Compare, Model, Object, Validate};
use crossgate::value::{Num, Unstructed, Val};

fn conv(v: &serde_json::Value) -> Val {
    match v {
        serde_json::Value::Null => Val::Null,
        serde_json::Value::Bool(b) => Val::Bool(*b),
        serde_json::Value::Number(n) => {
            if let Some(i) = n.as_i64() {
                Val::Num(Num::from_i64(i))
            } else if let Some(u) = n.as_u64() {
                Val::Num(Num::from_u64(u))
            } else {
                panic!("no floating numbers in these tests")
            }
        }
        serde_json::Value::String(s) => Val::Str(s.clone()),
        serde_json::Value::Array(items) => Val::List(items.iter().map(conv).collect()),
        serde_json::Value::Object(m) => {
            let mut entries = Vec::new();
            for (k, v) in m {
                entries.push((k.clone(), conv(v)));
            }
            Val::Obj(from_map(entries))
        }
    }
}

fn from_str(s: &str) -> Result<Unstructed, String> {
    match serde_json::from_str::<serde_json::Value>(s) {
        Ok(serde_json::Value::Object(m)) => {
            let mut entries = Vec::new();
            for (k, v) in &m {
                entries.push((k.clone(), conv(v)));
            }
            Ok(from_map(entries))
        }
        Ok(_) => Err("not an object".to_string()),
        Err(e) => Err(e.to_string()),
    }
}

#[test]
fn validate_test_basic() {
    let src = from_str(r#"{"a":123,"b":"312"}"#).unwrap();
    let span = Span { start: 1, end: 2 };

    assert_eq!(
        validate_match(
            None,
            &src,
            &Validate::And {
                span,
                lhs: Box::new(Validate::IsNumber {
                    field: "a".to_string(),
                    value: true,
                    span,
                }),
                rhs: Box::new(Validate::IsString {
                    field: "b".to_string(),
                    value: true,
                    span,
                }),
            },
        ),
        true
    );
}

#[test]
fn test_is_number() {
    let unstructed = &from_str(r#"{"a":123,"b":312}"#).unwrap();
    let span = Span { start: 1, end: 2 };
    let res = validate_match(
        None,
        unstructed,
        &Validate::IsNumber { field: "a".to_string(), value: true, span },
    );
    assert!(res == true);
}

#[test]
fn test_is_string() {
    let unstructed = &from_str(r#"{"a":"123","b":312}"#).unwrap();
    let span = Span { start: 1, end: 2 };
    let res = validate_match(
        None,
        unstructed,
        &Validate::IsString { field: "a".to_string(), value: true, span },
    );
    assert!(res == true);
}

#[test]
fn test_is_null() {
    let unstructed = &from_str(r#"{"a":null,"b":312}"#).unwrap();
    let span = Span { start: 1, end: 2 };
    let res = validate_match(
        None,
        unstructed,
        &Validate::IsNull { field: "a".to_string(), value: Value::Null, span },
    );
    assert!(res == true);
}

#[test]
fn test_is_not_null() {
    let unstructed = &from_str(r#"{"a":null,"b":312}"#).unwrap();
    let span = Span { start: 1, end: 2 };
    let res = validate_match(
        None,
        unstructed,
        &Validate::IsNotNull { field: "b".to_string(), value: Value::Null, span },
    );
    assert!(res == true);
}

#[test]
fn test_gte() {
    let unstructed = &from_str(r#"{"a":null,"b":312}"#).unwrap();
    let span = Span { start: 1, end: 2 };
    let res = validate_match(
        None,
        unstructed,
        &Validate::Gte {
            field: "b".to_string(),
            value: Value::Number(Num::from_i64(312)),
            span,
        },
    );
    assert!(res == true);
}

#[test]
fn test_lte() {
    let unstructed = &from_str(r#"{"a":null,"b":312}"#).unwrap();
    let span = Span { start: 1, end: 2 };
    let res = validate_match(
        None,
        unstructed,
        &Validate::Lte {
            field: "b".to_string(),
            value: Value::Number(Num::from_i64(999)),
            span,
        },
    );
    assert!(res == true);
}

#[test]
fn validate_test_in() {
    let unstructed = &from_str(r#"{"a":"a","b":312}"#).unwrap();
    let span = Span { start: 1, end: 2 };
    let res = validate_match(
        None,
        unstructed,
        &Validate::In {
            field: "a".to_string(),
            value: Value::List(vec![
                Value::Text("a".to_string()),
                Value::Text("b".to_string()),
            ]),
            span,
        },
    );
    assert!(res == true);
}

#[test]
fn test_not_in() {
    let unstructed = from_str(r#"{"a":"c","b":312}"#).unwrap();
    let span = Span { start: 1, end: 2 };

    assert!(
        validate_match(
            None,
            &unstructed,
            &Validate::NotIn {
                field: "a".to_string(),
                value: Value::List(vec![
                    Value::Text("a".to_string()),
                    Value::Text("b".to_string()),
                ]),
                span,
            },
        ) == true
    );

    assert!(
        validate_match(
            None,
            &unstructed,
            &Validate::NotIn {
                field: "a".to_string(),
                value: Value::List(vec![Value::Text("c".to_string())]),
                span,
            },
        ) == false
    );
}

#[test]
fn validate_test_len() {
    let unstructed = &from_str(r#"{"a":[1,2,3],"b":"312"}"#).unwrap();
    let span = Span { start: 1, end: 2 };

    assert!(
        validate_match(
            None,
            unstructed,
            &Validate::LenField {
                field: "a".to_string(),
                value: Num::from_i64(10),
                compare: Compare::LT,
                span,
            },
        ) == true
    );

    assert!(
        validate_match(
            None,
            unstructed,
            &Validate::LenField {
                field: "b".to_string(),
                value: Num::from_i64(10),
                compare: Compare::LT,
                span,
            },
        ) == true
    );
}

#[test]
fn test_expect_flag() {
    // `expect == false` demands the field *not* be of the type.
    let unstructed = &from_str(r#"{"a":123,"b":"x"}"#).unwrap();
    let span = Span { start: 1, end: 2 };
    assert!(validate_match(
        None,
        unstructed,
        &Validate::IsNumber { field: "b".to_string(), value: false, span },
    ));
    assert!(!validate_match(
        None,
        unstructed,
        &Validate::IsNumber { field: "a".to_string(), value: false, span },
    ));
    assert!(validate_match(
        None,
        unstructed,
        &Validate::IsString { field: "a".to_string(), value: false, span },
    ));
}

#[test]
fn test_join() {
    let src = from_str(r#"{"a":[1,2,3],"b":1,"c":2}"#).unwrap();
    let tag = from_str(r#"{"a":[1,2,3],"b":2,"c":1}"#).unwrap();

    let span = Span { start: 1, end: 2 };

    // src.b = tag.c
    assert_eq!(
        validate_match(
            Some(&src),
            &tag,
            &Validate::Corss {
                model: Model::Field {
                    src_field: "b".to_string(),
                    tag_field: "c".to_string(),
                    compare: Compare::EQ,
                },
                span,
            }
        ),
        true
    );

    // src.b = 1
    assert_eq!(
        validate_match(
            Some(&src),
            &tag,
            &Validate::Corss {
                model: Model::Value {
                    compare: Compare::EQ,
                    object: Object::Src,
                    field: "b".to_string(),
                    value: Value::Number(Num::from_i64(1)),
                },
                span,
            }
        ),
        true
    );
}
