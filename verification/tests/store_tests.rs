//! Store-side tests: the merge, the watch classification, identifiers and
//! the update documents.

use crossgate::dict::{compare_and_merge, get};
use crossgate::parse::yacc_parse;
use crossgate::record::from_map;
use crossgate::store::{
    build_update_doc, classify_event, ensure_id, Event, OpKind, StoreError, WatchStep,
};
use crossgate::value::{Num, Unstructed, Val};

fn rec(pairs: Vec<(&str, Val)>) -> Unstructed {
    let mut entries = Vec::new();
    for (k, v) in pairs {
        entries.push((k.to_string(), v));
    }
    from_map(entries)
}

#[test]
fn test_apply_merge_changes_field() {
    // old {name:"A", version:1}, new {name:"B"}, fields=["name"]:
    // the stored record gets name "B" and reports a change.
    let mut old = rec(vec![
        ("name", Val::Str("A".to_string())),
        ("version", Val::Num(Num::from_i64(1))),
    ]);
    let new = rec(vec![("name", Val::Str("B".to_string()))]);
    let updated = compare_and_merge(&mut old, &new, &vec!["name".to_string()]);
    assert!(updated);
    assert!(crossgate::record::val_eq(
        &get(&old, "name"),
        &Val::Str("B".to_string())
    ));
    // the unlisted field is untouched
    assert!(crossgate::record::val_eq(
        &get(&old, "version"),
        &Val::Num(Num::from_i64(1))
    ));
}

#[test]
fn test_apply_merge_idempotent() {
    // A second identical apply reports no change.
    let mut old = rec(vec![
        ("name", Val::Str("A".to_string())),
        ("version", Val::Num(Num::from_i64(1))),
    ]);
    let new = rec(vec![("name", Val::Str("B".to_string()))]);
    let first = compare_and_merge(&mut old, &new, &vec!["name".to_string()]);
    assert!(first);
    let second = compare_and_merge(&mut old, &new, &vec!["name".to_string()]);
    assert!(!second);
    assert!(crossgate::record::val_eq(
        &get(&old, "name"),
        &Val::Str("B".to_string())
    ));
}

#[test]
fn test_watch_classification() {
    let matching = rec(vec![("a", Val::Num(Num::from_i64(1)))]);
    let other = rec(vec![("a", Val::Num(Num::from_i64(2)))]);
    let expr = yacc_parse("a=1").unwrap();

    // an insert that matches the filter is delivered as Added
    match classify_event(OpKind::Insert, Some(matching.clone()), None, Some(&expr)) {
        WatchStep::Emit(Event::Added(_)) => {}
        other => panic!("an insert that matches is Added, not {:?}", other),
    }

    // an insert that does not match is passed over
    match classify_event(OpKind::Insert, Some(other.clone()), None, Some(&expr)) {
        WatchStep::Skip => {}
        other => panic!("an insert that does not match is skipped, not {:?}", other),
    }

    // an update that matches is delivered as Updated
    match classify_event(OpKind::Update, Some(matching.clone()), None, Some(&expr)) {
        WatchStep::Emit(Event::Updated(_)) => {}
        other => panic!("an update that matches is Updated, not {:?}", other),
    }

    // a delete is delivered with its key map, unchecked
    let key = rec(vec![("_id", Val::Str("x".to_string()))]);
    match classify_event(OpKind::Delete, None, Some(key), Some(&expr)) {
        WatchStep::Emit(Event::Deleted(k)) => {
            assert_eq!(k.get_string("_id", ""), "x");
        }
        other => panic!("a delete is Deleted, not {:?}", other),
    }

    // an empty filter passes everything
    match classify_event(OpKind::Insert, Some(other), None, None) {
        WatchStep::Emit(Event::Added(_)) => {}
        other => panic!("with no filter every insert is Added, not {:?}", other),
    }

    // a feed event without its record stops the stream
    match classify_event(OpKind::Insert, None, None, Some(&expr)) {
        WatchStep::Stop => {}
        other => panic!("an insert without a record stops the stream, not {:?}", other),
    }
}

#[test]
fn test_ensure_id() {
    let mut fresh = rec(vec![("a", Val::Num(Num::from_i64(1)))]);
    let id = ensure_id(&mut fresh);
    let id = id.expect("a record without an identifier gets one");
    assert_eq!(id.len(), 24);
    assert_eq!(fresh.get_string("_id", ""), id);

    let mut kept = rec(vec![("_id", Val::Str("abc".to_string()))]);
    assert!(ensure_id(&mut kept).is_none());
    assert_eq!(kept.get_string("_id", ""), "abc");

    // an empty-string identifier counts as absent and is replaced
    let mut blank = rec(vec![("_id", Val::Str(String::new()))]);
    let id = ensure_id(&mut blank).expect("an empty identifier is replaced");
    assert_eq!(id.len(), 24);
    assert_eq!(blank.get_string("_id", ""), id);
}

#[test]
fn test_build_update_doc() {
    let record = rec(vec![
        ("name", Val::Str("B".to_string())),
        ("age", Val::Num(Num::from_i64(7))),
    ]);
    let doc = build_update_doc(&record, &vec!["name".to_string()], true, 1700000000);
    assert_eq!(doc.len(), 2);
    assert_eq!(doc[0].0.as_str(), "name");
    assert!(crossgate::record::val_eq(&doc[0].1, &Val::Str("B".to_string())));
    assert_eq!(doc[1].0.as_str(), "version");
    assert!(crossgate::record::val_eq(
        &doc[1].1,
        &Val::Num(Num::from_u64(1700000000))
    ));

    let bare = build_update_doc(&record, &vec!["age".to_string()], false, 0);
    assert_eq!(bare.len(), 1);
}

#[test]
fn test_store_error_messages() {
    assert_eq!(StoreError::DataNotFound.message(), "data not found");
    assert_eq!(
        StoreError::DuplicateKey("k".to_string()).message(),
        "the data for key `k` is duplicate"
    );
    assert_eq!(
        StoreError::ConnectionError("down".to_string()).message(),
        "store connection abnormal info `down`"
    );
}

#[test]
fn test_current_time_sess() {
    // the epoch clock moved past 2021 and returns something plausible
    let t = crossgate::store::current_time_sess();
    assert!(t > 1609459200);
}
