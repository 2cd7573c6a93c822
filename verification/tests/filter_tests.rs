//! Compiler tests: filter texts compiled to query documents.

use crossgate::condition::Filter;
use crossgate::filter::{new_mongo_condition, MongoFilter, QExpr, QVal};

#[test]
fn filter_test_parse_cond() {
    let sym = "a=1 && b=2 || c=1 && b=2";
    let mut mf = MongoFilter(QExpr::Empty, sym.into(), false);
    match mf.parse(sym) {
        Ok(c) => println!("{:?}", c),
        Err(e) => panic!("{}", e),
    }
    println!("{:?}", mf);
}

#[test]
fn test_parse_cond2() {
    let sym = "a=1 && (b=2||c=1) && b=2";
    let mut mf = MongoFilter(QExpr::Empty, sym.to_string(), false);
    match mf.parse(sym) {
        Ok(c) => println!("{:?}", c),
        Err(e) => panic!("{}", e),
    }
    println!("{:?}", mf);
}

#[test]
fn test_parse_cond3() {
    let sym = r#"a=1 && (b="2" || c=1 && b='2')"#;
    let mut mf = MongoFilter(QExpr::Empty, sym.to_string(), false);
    match mf.parse(sym) {
        Ok(c) => println!("{:?}", c),
        Err(e) => panic!("{}", e),
    }
    println!("{:?}", mf);
}

#[test]
fn test_parse_in_notin() {
    let mut mf = MongoFilter(QExpr::Empty, "".to_string(), false);
    match mf.parse("a ~ (1,2,3,4)") {
        Ok(c) => println!("{:?}", c),
        Err(e) => panic!("{}", e),
    };

    match mf.parse("a ~~ (1,2,3,4)") {
        Ok(c) => println!("{:?}", c),
        Err(e) => panic!("{}", e),
    }
}

#[test]
fn test_parse_like() {
    let mut mf = MongoFilter(QExpr::Empty, "".to_string(), false);
    match mf.parse("a ! '^1.2'") {
        Ok(c) => println!("{:?}", c),
        Err(e) => panic!("{}", e),
    };
    match &mf.0 {
        QExpr::Regex { field, pattern } => {
            assert_eq!(field.as_str(), "a");
            assert_eq!(pattern.as_str(), "^1.2");
        }
        other => panic!("a like compiles to a regex, not {:?}", other),
    }
}

#[test]
fn test_parse_f64() {
    let mut mf = MongoFilter(QExpr::Empty, "".to_string(), false);
    match mf.parse("a = 1.2") {
        Ok(c) => println!("{:?}", c),
        Err(e) => panic!("{}", e),
    };
}

#[test]
fn test_parse_strings() {
    let mut mf = MongoFilter(QExpr::Empty, "".to_string(), false);
    match mf.parse(r#"a = 1.2 || b = 'abc' ||c="cde""#) {
        Ok(c) => println!("{:?}", c),
        Err(e) => panic!("{}", e),
    };
}

#[test]
fn test_parse_in_strings() {
    let mut mf = MongoFilter(QExpr::Empty, "".to_string(), false);
    match mf.parse(r#"a ~ ("1","2")"#) {
        Ok(c) => println!("{:?}", c),
        Err(e) => panic!("{}", e),
    };

    let mut mf = MongoFilter(QExpr::Empty, "".to_string(), false);
    match mf.parse(r#"a ~ ('1','2')"#) {
        Ok(c) => println!("{:?}", c),
        Err(e) => panic!("{}", e),
    };
}

#[test]
fn test_parse_isodate() {
    let mut mf = MongoFilter(QExpr::Empty, "".to_string(), false);
    match mf.parse(r#"a >= 'ISODate(2021-01-01 00:00:00)'"#) {
        Ok(c) => println!("{:?}", c),
        Err(e) => panic!("{}", e),
    };
    match &mf.0 {
        QExpr::Cmp { value: QVal::Date(ms), .. } => assert_eq!(*ms, 1609459200000),
        other => panic!("a date literal compiles to a timestamp, not {:?}", other),
    }

    match mf.parse(r#"a ~ ('ISODate(2021-01-01 00:00:00)','ISODate(2021-02-01 00:00:00)')"#) {
        Ok(c) => println!("{:?}", c),
        Err(e) => panic!("{}", e),
    }
}

#[test]
fn test_not_like_rejected() {
    let mut mf = MongoFilter(QExpr::Empty, "".to_string(), false);
    assert!(mf.parse("a !! '^x'").is_err());
}

#[test]
fn test_unsupported_ops_rejected() {
    let mut mf = MongoFilter(QExpr::Empty, "".to_string(), false);
    assert!(mf.parse("a ^ null").is_err());
    assert!(mf.parse("len(a) = 1").is_err());
    assert!(mf.parse("a << (1,2)").is_err());
    assert!(mf.parse("a >> (1,2)").is_err());
}

#[test]
fn test_mixed_list_rejected() {
    let mut mf = MongoFilter(QExpr::Empty, "".to_string(), false);
    assert!(mf.parse(r#"a ~ (1,'2')"#).is_err());
}

#[test]
fn test_id_conversion() {
    // With identifier coercion on, `_id` strings must be 24 hexadecimal
    // characters and land as object identifiers.
    let mut mf = MongoFilter(QExpr::Empty, "".to_string(), false);
    mf.enable_convert();
    match mf.parse(r#"_id ~ ("64535b7c0c28142880602cca","64535b7c0c28142880602ccb")"#) {
        Ok(()) => {}
        Err(e) => panic!("{}", e),
    }
    match &mf.0 {
        QExpr::InList { values, neg, .. } => {
            assert_eq!(*neg, false);
            assert_eq!(values.len(), 2);
            assert!(matches!(values[0], QVal::Oid(_)));
        }
        other => panic!("a membership filter compiles to a list, not {:?}", other),
    }

    let mut bad = MongoFilter(QExpr::Empty, "".to_string(), false);
    bad.enable_convert();
    assert!(bad.parse(r#"_id = "not-hex""#).is_err());

    // Without coercion the same text stays a plain string.
    let mut plain = MongoFilter(QExpr::Empty, "".to_string(), false);
    match plain.parse(r#"_id = "64535b7c0c28142880602cca""#) {
        Ok(()) => {}
        Err(e) => panic!("{}", e),
    }
    match &plain.0 {
        QExpr::Cmp { value: QVal::S(_), .. } => {}
        other => panic!("without coercion the literal stays a string: {:?}", other),
    }
}

#[test]
fn condition_test_parse_cond() {
    let mut cond = new_mongo_condition();
    match cond.wheres("a=1&&b=2||c=1&&b=2&&abc='abc21'") {
        Ok(()) => println!("{:?}", cond),
        Err(e) => panic!("{}", e),
    }
}

#[test]
fn test_wheres_replaces_and_keeps_the_rest() {
    let mut cond = new_mongo_condition().with_db("db").with_page(3, 7);
    cond.wheres("a=1").unwrap();
    cond.wheres("b=2").unwrap();
    // the second parse replaced the first
    assert_eq!(cond.filter.1.as_str(), "b=2");
    match &cond.filter.0 {
        QExpr::Cmp { field, .. } => assert_eq!(field.as_str(), "b"),
        other => panic!("the filter holds the last parse, not {:?}", other),
    }
    // a failing parse leaves the filter as it was
    assert!(cond.wheres("b=").is_err());
    assert_eq!(cond.filter.1.as_str(), "b=2");
    // and the rest of the condition was never touched
    assert_eq!(cond.db.as_str(), "db");
    assert_eq!(cond.page, 3);
    assert_eq!(cond.size, 7);
}

#[test]
fn test_condition_builder_defaults() {
    let cond = new_mongo_condition();
    assert_eq!(cond.page, 0);
    assert_eq!(cond.size, 10);
    assert_eq!(cond.pageable, false);
    assert_eq!(cond.update_version, true);
    let cond = cond.with_db("db").with_table("t").with_page(2, 50);
    assert_eq!(cond.db.as_str(), "db");
    assert_eq!(cond.table.as_str(), "t");
    assert_eq!(cond.page, 2);
    assert_eq!(cond.size, 50);
    assert_eq!(cond.pageable, true);
}
