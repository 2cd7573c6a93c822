//! Matcher tests: each operator evaluated against in-memory records.

use crossgate::matchs::matchs;
use crossgate::parse::yacc_parse as parse;
use crossgate::record::from_map;
use crossgate::value::{Num, Unstructed, Val};

fn conv(v: &serde_json::Value) -> Val {
    match v {
        serde_json::Value::Null => Val::Null,
        serde_json::Value::Bool(b) => Val::Bool(*b),
        serde_json::Value::Number(n) => {
            if let Some(i) = n.as_i64() {
                Val::Num(Num::from_i64(i))
            } else if let Some(u) = n.as_u64() {
                Val::Num(Num::from_u64(u))
            } else {
                panic!("no floating numbers in these tests")
            }
        }
        serde_json::Value::String(s) => Val::Str(s.clone()),
        serde_json::Value::Array(items) => Val::List(items.iter().map(conv).collect()),
        serde_json::Value::Object(m) => {
            let mut entries = Vec::new();
            for (k, v) in m {
                entries.push((k.clone(), conv(v)));
            }
            Val::Obj(from_map(entries))
        }
    }
}

fn from_str(s: &str) -> Result<Unstructed, String> {
    match serde_json::from_str::<serde_json::Value>(s) {
        Ok(serde_json::Value::Object(m)) => {
            let mut entries = Vec::new();
            for (k, v) in &m {
                entries.push((k.clone(), conv(v)));
            }
            Ok(from_map(entries))
        }
        Ok(_) => Err("not an object".to_string()),
        Err(e) => Err(e.to_string()),
    }
}

#[test]
fn test_eq() {
    let datas = vec![
        from_str(r#"{"a":123,"b":312}"#).unwrap(),
        from_str(r#"{"a":123,"d":111}"#).unwrap(),
    ];

    let mut r = datas.clone();
    matchs(&mut r, &parse("a=123").unwrap());
    if r.len() != 2 {
        panic!("Inconsistent expected results")
    }

    let mut r = datas.clone();
    matchs(&mut r, &parse("a!=123").unwrap());
    if r.len() != 0 {
        panic!("Inconsistent expected results")
    }
}

#[test]
fn matchs_test_in() {
    let datas = vec![
        from_str(r#"{"a":1,"b":2}"#).unwrap(),
        from_str(r#"{"a":3,"d":3}"#).unwrap(),
        from_str(r#"{"a":4,"d":3}"#).unwrap(),
    ];

    let mut r = datas.clone();
    matchs(&mut r, &parse("a ~ (1,3)").unwrap());
    if r.len() != 2 {
        panic!("Inconsistent expected results")
    }
    println!("in result {:?}", r);

    let mut r = datas.clone();
    matchs(&mut r, &parse("a ~~ (1,3)").unwrap());
    if r.len() != 1 {
        panic!("Inconsistent expected results")
    }
    println!("not in result {:?}", r);
}

#[test]
fn matchs_test_like() {
    let datas = vec![
        from_str(r#"{"name":"bobo","src":2}"#).unwrap(),
        from_str(r#"{"name":"bill","src":3}"#).unwrap(),
        from_str(r#"{"name":"alex","src":3}"#).unwrap(),
    ];

    let mut r = datas.clone();
    matchs(&mut r, &parse("name ! '^b.'").unwrap());
    if r.len() != 2 {
        panic!("Inconsistent expected results")
    }
    println!("like data {:?}", r);

    let mut r = datas.clone();
    matchs(&mut r, &parse("name !! '^b.'").unwrap());
    if r.len() != 1 {
        panic!("Inconsistent expected results")
    }
    println!("not like data {:?}", r);
}

#[test]
fn test_compare() {
    let datas = vec![
        from_str(r#"{"name":"bobo","src":2}"#).unwrap(),
        from_str(r#"{"name":"bill","src":3}"#).unwrap(),
        from_str(r#"{"name":"alex","src":3}"#).unwrap(),
    ];

    let mut r = datas.clone();
    matchs(&mut r, &parse("src>2").unwrap());
    if r.len() != 2 {
        panic!("Inconsistent expected results")
    }
    println!("gt data {:?}", r);

    let mut r = datas.clone();
    matchs(&mut r, &parse("src>=2").unwrap());
    if r.len() != 3 {
        panic!("Inconsistent expected results")
    }
    println!("gte data {:?}", r);

    let mut r = datas.clone();
    matchs(&mut r, &parse("src<3").unwrap());
    if r.len() != 1 {
        panic!("Inconsistent expected results")
    }
    println!("lt data {:?}", r);

    let mut r = datas.clone();
    matchs(&mut r, &parse("src<=2").unwrap());
    if r.len() != 1 {
        panic!("Inconsistent expected results")
    }
    println!("lte data {:?}", r);
}

#[test]
fn test_joint() {
    let datas = vec![
        from_str(r#"{"name":"bobo","src":2}"#).unwrap(),
        from_str(r#"{"name":"bill","src":3}"#).unwrap(),
        from_str(r#"{"name":"alex","src":3}"#).unwrap(),
    ];

    let mut r = datas.clone();
    matchs(&mut r, &parse("name ! '^a.' || src=3").unwrap());
    if r.len() != 2 {
        panic!("Inconsistent expected results")
    }
    println!("joint data {:?}", r);
}

#[test]
fn matchs_test_bool() {
    let datas = vec![
        from_str(r#"{"name":"bobo","active":false}"#).unwrap(),
        from_str(r#"{"name":"bill","active":false}"#).unwrap(),
        from_str(r#"{"name":"alex","active":true}"#).unwrap(),
    ];

    let mut r = datas.clone();
    matchs(&mut r, &parse("active = true").unwrap());
    if r.len() != 1 {
        panic!("Inconsistent expected results")
    }
    println!("bool data {:?}", r);
}

#[test]
fn matchs_test_in_string() {
    let datas = vec![
        from_str(r#"{"name":"bobo","active":false}"#).unwrap(),
        from_str(r#"{"name":"bill","active":false}"#).unwrap(),
        from_str(r#"{"name":"alex","active":true}"#).unwrap(),
    ];

    let mut r = datas.clone();
    matchs(&mut r, &parse(r#"name ~ ("bobo","bill")"#).unwrap());
    if r.len() != 2 {
        panic!("Inconsistent expected results")
    }
    println!("bool data {:?}", r);
}

#[test]
fn matchs_test_null() {
    let datas = vec![
        from_str(r#"{"name":"bobo","active":null}"#).unwrap(),
        from_str(r#"{"name":"bill","active":false}"#).unwrap(),
        from_str(r#"{"name":"alex","active":true}"#).unwrap(),
    ];

    let mut r = datas.clone();
    matchs(&mut r, &parse(r#"active ^ null"#).unwrap());
    if r.len() != 1 {
        panic!("Inconsistent expected results")
    }
    println!("data {:?}", r);

    let mut r = datas.clone();
    matchs(&mut r, &parse(r#"active ^^ null"#).unwrap());
    if r.len() != 2 {
        panic!("Inconsistent expected results")
    }
    println!("data {:?}", r);
}

#[test]
fn matchs_test_len() {
    let datas = vec![
        from_str(r#"{"name":"bobo","active":null}"#).unwrap(),
        from_str(r#"{"name":"bill","active":false}"#).unwrap(),
        from_str(r#"{"name":"alex","active":true}"#).unwrap(),
    ];

    let mut r = datas.clone();
    matchs(&mut r, &parse(r#"len(name) = 4 "#).unwrap());
    if r.len() != 3 {
        panic!("Inconsistent expected results")
    }
    println!("data {:?}", r);

    let datas = vec![from_str(r#"{"name":"bobo","ids":[1,2,3]}"#).unwrap()];
    let mut r = datas.clone();
    matchs(&mut r, &parse(r#"len(ids) = 3 "#).unwrap());
    if r.len() != 1 {
        panic!("Inconsistent expected results")
    }
    println!("data {:?}", r);

    let datas = vec![from_str(r#"{"name":"bobo","obj":{"a":1}}"#).unwrap()];
    let mut r = datas.clone();
    matchs(&mut r, &parse(r#"len(obj) = 1 "#).unwrap());
    if r.len() != 1 {
        panic!("Inconsistent expected results")
    }
    println!("data {:?}", r);
}

#[test]
fn matchs_test_belong() {
    let datas = vec![from_str(r#"{"alist":[1,2]}"#).unwrap()];

    let mut r = datas.clone();
    matchs(&mut r, &parse(r#"alist<<(1,2,3)"#).unwrap());
    if r.len() != 1 {
        panic!("Inconsistent expected results")
    }
    println!("test_belong data {:?}", r);

    let mut r = datas.clone();
    matchs(&mut r, &parse(r#"alist<<(1,3)"#).unwrap());
    if r.len() != 0 {
        panic!("Inconsistent expected results")
    }
    println!("test_belong data {:?}", r);
}

#[test]
fn test_no_belong() {
    let datas = vec![from_str(r#"{"alist":[1,4]}"#).unwrap()];
    let mut r = datas.clone();
    matchs(&mut r, &parse(r#"alist >> (1,2,3)"#).unwrap());
    println!("test_nobelong data {:?}", r);
    if r.len() != 1 {
        panic!("Inconsistent expected results")
    }

    let datas = vec![from_str(r#"{"alist":[4]}"#).unwrap()];
    let mut r = datas.clone();
    matchs(&mut r, &parse(r#"alist >> (1,2,3)"#).unwrap());
    println!("test_nobelong data {:?}", r);
    if r.len() != 1 {
        panic!("Inconsistent expected results")
    }
}

#[test]
fn test_mix() {
    let datas = vec![from_str(
        r#"
        {
            "uid": "Abc",
            "level": 2,
            "parent_id": "汽车养护",
            "full_id": "",
            "nav_status": 1,
            "keywords": [
                "ABC"
            ],
            "description": ""
        }
        "#,
    )
    .unwrap()];

    let mut r = datas.clone();
    matchs(
        &mut r,
        &parse(r#"level ~ (1,2,3) && nav_status ~ (1,2) && len(keywords) > 0 && len(uid) > 0"#)
            .unwrap(),
    );
    if r.len() != 1 {
        panic!("Inconsistent expected results")
    }
    println!("test data {:?}", r);
}

#[test]
fn my_test() {
    let datas = vec![from_str(
        r#"
        {
            "uid": "64535b7c0c28142880602cca",
            "channel_name": "VIP普通用户",
            "level": 1,
            "direct_subordinate": 1,
            "indirect_subordinate": 1,
            "share_ratio": 1,
            "can_purchased": true,
            "price": 1
        }
        "#,
    )
    .unwrap()];

    let mut r = datas.clone();
    matchs(
        &mut r,
        &parse(r#" len(channel_name) >=2 && len(channel_name) <=64 && level>=1 && level <=100 "#)
            .unwrap(),
    );
    if r.len() != 1 {
        panic!("Inconsistent expected results")
    }
    println!("test data {:?}", r);

    let mut r = datas.clone();
    matchs(&mut r, &parse(r#" len(uid) > 0"#).unwrap());
    if r.len() != 1 {
        panic!("Inconsistent expected results")
    }
    println!("test data {:?}", r);
}

#[test]
fn matchs_test_string_compare() {
    let datas = vec![
        from_str(
            r#"
        {
            "uid": "2"
        }
        "#,
        )
        .unwrap(),
        from_str(
            r#"
        {
            "uid": "1"
        }
        "#,
        )
        .unwrap(),
    ];

    let mut r = datas.clone();
    matchs(&mut r, &parse(r#"uid > '1'"#).unwrap());
    if r.len() != 1 {
        panic!("Inconsistent expected results")
    }
    println!("test data {:?}", r);

    let mut r = datas.clone();
    matchs(&mut r, &parse(r#"uid >= '1'"#).unwrap());
    if r.len() != 2 {
        panic!("Inconsistent expected results")
    }
    println!("test data {:?}", r);

    let mut r = datas.clone();
    matchs(&mut r, &parse(r#"uid < '2'"#).unwrap());
    if r.len() != 1 {
        panic!("Inconsistent expected results")
    }
    println!("test data {:?}", r);

    let mut r = datas.clone();
    matchs(&mut r, &parse(r#"uid <= '2'"#).unwrap());
    if r.len() != 2 {
        panic!("Inconsistent expected results")
    }
    println!("test data {:?}", r);
}

#[test]
fn test_match_by_predicate_mismatched_types() {
    // Equality needs a like-shaped value; inequality holds on a differing
    // value, a differently shaped one, or a missing field.
    let item = from_str(r#"{"a":123,"b":"x"}"#).unwrap();
    assert_eq!(item.match_by_predicate("a=123 && b='x'").unwrap(), true);
    assert_eq!(item.match_by_predicate("a!=123").unwrap(), false);
    assert_eq!(item.match_by_predicate("a='123'").unwrap(), false);
    assert_eq!(item.match_by_predicate("b=123").unwrap(), false);
    assert_eq!(item.match_by_predicate("b!=123").unwrap(), true);
    assert_eq!(item.match_by_predicate("a!='123'").unwrap(), true);
    assert_eq!(item.match_by_predicate("missing!=1").unwrap(), true);
    assert_eq!(item.match_by_predicate("missing=1").unwrap(), false);
}

#[test]
fn test_dotted_fields() {
    // The matcher follows dotted paths, as the compiled backend form does.
    let item = from_str(r#"{"a":{"b":1},"c":null}"#).unwrap();
    assert_eq!(item.match_by_predicate("a.b=1").unwrap(), true);
    assert_eq!(item.match_by_predicate("a.b=2").unwrap(), false);
    assert_eq!(item.match_by_predicate("a.b ^ null").unwrap(), false);
    assert_eq!(item.match_by_predicate("a.b ^^ null").unwrap(), true);
    assert_eq!(item.match_by_predicate("a.z ^ null").unwrap(), true);
    assert_eq!(item.match_by_predicate("c ^ null").unwrap(), true);
    assert_eq!(item.match_by_predicate("a.b != 2").unwrap(), true);
}
