//! Path parsing and calendar tests.

use crossgate::time::date_to_unixtime_range;
use crossgate::local::{ErrorLocation, Location};
use crossgate::uri::{parse, ApiType, Uri};

#[test]
fn test_parse_url() {
    let url = "/workload/apis/ddx2x.github.dev/v1/namespaces/abc/gps/0123321";

    assert_eq!(
        parse(url),
        Uri {
            service: "workload".into(),
            api_type: ApiType::APIS,
            api_group: "ddx2x.github.dev".into(),
            api_version: "v1".into(),
            ns: Some("abc".into()),
            resource_type: "gps".into(),
            resource_name: Some("0123321".into()),
            op: None
        }
    );

    let url = "/workload/apis/ddx2x.github.dev/v1/namespaces/abc/gps/0123321/op/watch";

    assert_eq!(
        parse(url),
        Uri {
            service: "workload".into(),
            api_type: ApiType::APIS,
            api_group: "ddx2x.github.dev".into(),
            api_version: "v1".into(),
            ns: Some("abc".into()),
            resource_type: "gps".into(),
            resource_name: Some("0123321".into()),
            op: Some("watch".into())
        }
    );
}

#[test]
fn unix_timestamp_u64() {
    let (start, end) = date_to_unixtime_range("2021-01-01");
    assert_eq!(start, 1609430400);
    assert_eq!(end, 1609516799);
}

#[test]
fn test_parse_datetime() {
    assert_eq!(
        crossgate::time::parse_datetime("2021-01-01 00:00:00"),
        Some(1609459200)
    );
    assert_eq!(crossgate::time::parse_datetime("2021-02-29 00:00:00"), None);
    assert_eq!(crossgate::time::parse_datetime("2020-02-29 12:30:45"), Some(1582979445));
    assert_eq!(crossgate::time::parse_datetime("not a datetime at all"), None);
}

#[test]
fn test_error_location() {
    let loc = Location { file: "lib.rs", line: 41, column: 7 };
    let ok: Result<u32, String> = Ok(5);
    assert_eq!(ok.location(&loc), Ok(5));
    let err: Result<u32, String> = Err("boom".to_string());
    assert_eq!(
        err.location(&loc),
        Err("boom at lib.rs line 41 column 7".to_string())
    );
}

#[test]
fn test_unixtime_to_date() {
    assert_eq!(
        crossgate::time::unixtime_to_date(1609430400),
        "2021-01-01 00:00:00"
    );
    assert_eq!(
        crossgate::time::unixtime_to_date(0),
        "1970-01-01 08:00:00"
    );
    assert_eq!(
        crossgate::time::unixtime_to_date(1582991999),
        "2020-02-29 23:59:59"
    );
}
