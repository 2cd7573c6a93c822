//! Parser tests: every documented operator parses.

use crossgate::cond::{Expr, Value};
use crossgate::parse::yacc_parse as parse;
use crossgate::value::Num;

#[test]
fn test_base() {
    let sym = r#"a=1&&b=2||b=2&&c=1||com_id=1||com-id=2&&com-name='abc'"#;

    match parse(sym) {
        Ok(rs) => println!("{:#?}", rs),
        Err(e) => panic!("{}", e),
    }

    let sym = "a.x.x=1";

    match parse(sym) {
        Ok(rs) => println!("{:#?}", rs),
        Err(e) => panic!("{}", e),
    }
}

#[test]
fn test_double_quotes() {
    match parse(r#"abc="123""#) {
        Ok(rs) => println!("{:#?}", rs),
        Err(e) => panic!("{}", e),
    }
}

#[test]
fn test_base2() {
    let sym = "a=1 && ( b=1 ) && c=1";

    match parse(sym) {
        Ok(rs) => println!("{:#?}", rs),
        Err(e) => panic!("{}", e),
    }
}

#[test]
fn test_base3() {
    let sym = "a=2 && ( b=1 || b=2 ) && b=2";

    match parse(sym) {
        Ok(rs) => println!("{:#?}", rs),
        Err(e) => panic!("{}", e),
    }
}

#[test]
fn test_base4() {
    let sym = r#"a="2" && b="2""#;

    match parse(sym) {
        Ok(rs) => println!("{:#?}", rs),
        Err(e) => panic!("{}", e),
    }
}

#[test]
fn cond_test_like() {
    let sym = "a ! '^abc' ";
    match parse(sym) {
        Ok(rs) => println!("{:#?}", rs),
        Err(e) => panic!("{}", e),
    }

    let sym = "a !! '^abc' ";
    match parse(sym) {
        Ok(rs) => println!("{:#?}", rs),
        Err(e) => panic!("{}", e),
    }
}

#[test]
fn test_in_array() {
    match parse("id ~ (1)") {
        Ok(rs) => println!("{:#?}", rs),
        Err(e) => panic!("{}", e),
    };

    match parse("id ~ (1,2,3,4)") {
        Ok(rs) => println!("{:#?}", rs),
        Err(e) => panic!("{}", e),
    }

    match parse("id ~ ('1')") {
        Ok(rs) => println!("{:#?}", rs),
        Err(e) => panic!("{}", e),
    };

    match parse("id ~ ('1','2','3','4')") {
        Ok(rs) => println!("{:#?}", rs),
        Err(e) => panic!("{}", e),
    }

    match parse("id ~~ ('1','2','3','4')") {
        Ok(rs) => println!("{:#?}", rs),
        Err(e) => panic!("{}", e),
    }
}

#[test]
fn cond_test_in_string() {
    match parse("id ~ ('1','2','3','4')") {
        Ok(rs) => println!("{:#?}", rs),
        Err(e) => panic!("{}", e),
    }

    match parse(r#"id ~ ("1","2")"#) {
        Ok(rs) => println!("{:#?}", rs),
        Err(e) => panic!("{}", e),
    }
}

#[test]
fn test_like_notlike() {
    match parse("full_id ! '^1.'") {
        Ok(rs) => println!("{:#?}", rs),
        Err(e) => panic!("{}", e),
    };

    match parse("full_id !! '^1.'") {
        Ok(rs) => println!("{:#?}", rs),
        Err(e) => panic!("{}", e),
    };
}

#[test]
fn cond_test_bool() {
    match parse("active = false") {
        Ok(rs) => println!("{:#?}", rs),
        Err(e) => panic!("{}", e),
    };

    match parse("active = true") {
        Ok(rs) => println!("{:#?}", rs),
        Err(e) => panic!("{}", e),
    };
}

#[test]
fn cond_test_null() {
    match parse("a ^ null") {
        Ok(rs) => println!("{:#?}", rs),
        Err(e) => panic!("{}", e),
    };

    match parse("a ^^ null") {
        Ok(rs) => println!("{:#?}", rs),
        Err(e) => panic!("{}", e),
    };
}

#[test]
fn cond_test_len() {
    match parse("len(a) = 1") {
        Ok(rs) => println!("{:#?}", rs),
        Err(e) => panic!("{}", e),
    };
}

#[test]
fn cond_test_belong() {
    match parse("a << (1,2,3)") {
        Ok(rs) => println!("{:#?}", rs),
        Err(e) => panic!("{}", e),
    };
}

#[test]
fn test_nobelong() {
    match parse("a >> (1,2,3)") {
        Ok(rs) => println!("{:#?}", rs),
        Err(e) => panic!("{}", e),
    };
}

#[test]
fn cond_test_string_compare() {
    match parse("a >= 'abc'") {
        Ok(rs) => println!("{:#?}", rs),
        Err(e) => panic!("{}", e),
    };
}

#[test]
fn test_precedence_shape() {
    // `a=1 && b=2 || c=3` groups as `Or(And(Eq(a,1), Eq(b,2)), Eq(c,3))`.
    let e = parse("a=1 && b=2 || c=3").unwrap();
    match e {
        Expr::Or { lhs, rhs, .. } => {
            match *lhs {
                Expr::And { lhs: al, rhs: ar, .. } => {
                    match *al {
                        Expr::Eq { ref field, ref value, .. } => {
                            assert_eq!(field.as_str(), "a");
                            assert!(matches!(value, Value::Number(Num::Int(1))));
                        }
                        other => panic!("left of the conjunction is {:?}", other),
                    }
                    match *ar {
                        Expr::Eq { ref field, ref value, .. } => {
                            assert_eq!(field.as_str(), "b");
                            assert!(matches!(value, Value::Number(Num::Int(2))));
                        }
                        other => panic!("right of the conjunction is {:?}", other),
                    }
                }
                other => panic!("left of the disjunction is {:?}", other),
            }
            match *rhs {
                Expr::Eq { ref field, ref value, .. } => {
                    assert_eq!(field.as_str(), "c");
                    assert!(matches!(value, Value::Number(Num::Int(3))));
                }
                other => panic!("right of the disjunction is {:?}", other),
            }
        }
        other => panic!("the root is {:?}", other),
    }
}

#[test]
fn test_parse_errors() {
    assert!(parse("a=").is_err());
    assert!(parse("&& a=1").is_err());
    assert!(parse("a ~ ()").is_err());
    assert!(parse("a = 'unterminated").is_err());
    assert!(parse("a # 1").is_err());
    assert!(parse("").is_err());
}

#[test]
fn test_remove_apostrophe() {
    assert_eq!(crossgate::parse::remove_apostrophe("'abc'".to_string()), "abc");
    assert_eq!(crossgate::parse::remove_apostrophe("\"abc\"".to_string()), "abc");
    assert_eq!(crossgate::parse::remove_apostrophe("abc".to_string()), "abc");
}
