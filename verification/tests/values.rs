use reqwest::conversions::{error_from_error_code, error_from_header_error, error_from_stream_error};
use wasi::http::types::{ErrorCode, HeaderError};
use wasi::io::streams::StreamError;
use reqwest::error::{IoErrorKind, Kind, Source};
use reqwest::method::{encode_method, Method, WasiMethod};
use reqwest::number::{format_u64, parse_u64};
use reqwest::status::StatusCode;
use reqwest::text::str_eq;
use reqwest::timeout::{deadline_nanos, optional_nanos, timeout_or, Timeout};
use reqwest::url::{ParsedUrl, WasiScheme};

#[test]
fn parse_u64_follows_std() {
    assert_eq!(parse_u64(b"0"), Some(0));
    assert_eq!(parse_u64(b"1234"), Some(1234));
    assert_eq!(parse_u64(b"+5"), Some(5));
    assert_eq!(parse_u64(b"007"), Some(7));
    assert_eq!(parse_u64(b"18446744073709551615"), Some(u64::MAX));
    assert_eq!(parse_u64(b"18446744073709551616"), None);
    assert_eq!(parse_u64(b"99999999999999999999x"), None);
    assert_eq!(parse_u64(b""), None);
    assert_eq!(parse_u64(b"+"), None);
    assert_eq!(parse_u64(b"-1"), None);
    assert_eq!(parse_u64(b" 1"), None);
    assert_eq!(parse_u64(b"12a"), None);
    for s in ["0", "42", "+42", "18446744073709551615", "18446744073709551616", "", "x", "4 2"] {
        assert_eq!(parse_u64(s.as_bytes()), s.parse::<u64>().ok(), "{}", s);
    }
}

#[test]
fn status_codes() {
    assert!(StatusCode::from_u16(99).is_err());
    assert!(StatusCode::from_u16(1000).is_err());
    let e = StatusCode::from_u16(42).unwrap_err();
    assert!(matches!(e.kind, Kind::Decode));
    assert!(matches!(e.source, Some(Source::InvalidStatusCode)));
    assert_eq!(StatusCode::from_u16(100).unwrap().as_u16(), 100);
    assert_eq!(StatusCode::from_u16(999).unwrap().as_u16(), 999);
    let ok = StatusCode::from_u16(200).unwrap();
    assert!(!ok.is_client_error() && !ok.is_server_error());
    let nf = StatusCode::from_u16(404).unwrap();
    assert!(nf.is_client_error() && !nf.is_server_error());
    let se = StatusCode::from_u16(503).unwrap();
    assert!(!se.is_client_error() && se.is_server_error());
    let edge = StatusCode::from_u16(600).unwrap();
    assert!(!edge.is_client_error() && !edge.is_server_error());
}

#[test]
fn methods_encode_by_name() {
    assert!(matches!(encode_method(Method::Get), WasiMethod::Get));
    assert!(matches!(encode_method(Method::Post), WasiMethod::Post));
    assert!(matches!(encode_method(Method::Put), WasiMethod::Put));
    assert!(matches!(encode_method(Method::Delete), WasiMethod::Delete));
    assert!(matches!(encode_method(Method::Head), WasiMethod::Head));
    assert!(matches!(encode_method(Method::Options), WasiMethod::Options));
    assert!(matches!(encode_method(Method::Connect), WasiMethod::Connect));
    assert!(matches!(encode_method(Method::Patch), WasiMethod::Patch));
    assert!(matches!(encode_method(Method::Trace), WasiMethod::Trace));
    match encode_method(Method::Extension("PURGE".to_string())) {
        WasiMethod::Other(s) => assert_eq!(s, "PURGE"),
        other => panic!("unexpected {:?}", other),
    }
}

#[test]
fn urls_split_into_parts() {
    let u = ParsedUrl::parse("https://user@example.com:8080/a/b?x=1&y=2#frag").unwrap();
    assert_eq!(u.scheme(), "https");
    assert_eq!(u.authority(), "user@example.com:8080");
    assert_eq!(u.path(), "/a/b");
    assert_eq!(u.query(), Some("x=1&y=2"));
    assert_eq!(u.path_with_query(), "/a/b?x=1&y=2");
    assert!(matches!(u.wasi_scheme(), WasiScheme::Https));
    let plain = ParsedUrl::parse("http://example.com").unwrap();
    assert_eq!(plain.path_with_query(), "/");
    assert!(matches!(plain.wasi_scheme(), WasiScheme::Http));
    let other = ParsedUrl::parse("ftp://example.com/f").unwrap();
    match other.wasi_scheme() {
        WasiScheme::Other(s) => assert_eq!(s, "ftp"),
        s => panic!("unexpected {:?}", s),
    }
    let e = ParsedUrl::parse("not a url").unwrap_err();
    assert!(matches!(e.kind, Kind::Builder));
    assert!(matches!(e.source, Some(Source::InvalidUrl)));
    assert_eq!(u.duplicate().as_str(), u.as_str());
}

#[test]
fn timeouts_in_nanoseconds() {
    let t = Timeout::new(2, 5);
    assert_eq!(t.as_nanos(), 2_000_000_005);
    assert_eq!(t.as_secs(), 2);
    assert_eq!(t.subsec_nanos(), 5);
    assert_eq!(Timeout::from_millis(1500).as_nanos(), 1_500_000_000);
    assert_eq!(Timeout::from_secs(3).as_nanos_u64(), 3_000_000_000);
    let huge = Timeout::from_secs(u64::MAX);
    assert_eq!(huge.as_nanos_u64(), (u64::MAX as u128 * 1_000_000_000) as u64);
    assert_eq!(deadline_nanos(&None), 10_000_000_000_000_000_000);
    assert_eq!(deadline_nanos(&Some(Timeout::from_millis(7))), 7_000_000);
    assert_eq!(optional_nanos(&None), None);
    assert_eq!(optional_nanos(&Some(Timeout::from_secs(1))), Some(1_000_000_000));
    let a = Some(Timeout::from_secs(1));
    let b = Some(Timeout::from_secs(2));
    assert_eq!(timeout_or(&a, &b).unwrap().as_secs(), 1);
    assert_eq!(timeout_or(&None, &b).unwrap().as_secs(), 2);
    assert!(timeout_or(&None, &None).is_none());
}

#[test]
fn string_equality() {
    assert!(str_eq("http", "http"));
    assert!(!str_eq("http", "https"));
    assert!(!str_eq("é", "e"));
    assert!(str_eq("", ""));
}

#[test]
fn failure_point_reports_the_step() {
    let e = reqwest::error::failure_point("set_method", ());
    assert!(matches!(e.kind, Kind::Request));
    match e.source {
        Some(Source::Io(IoErrorKind::Other, m)) => assert_eq!(m, "set_method"),
        other => panic!("unexpected {:?}", other),
    }
}


#[test]
fn decimal_text_round_trips() {
    assert_eq!(format_u64(0), b"0".to_vec());
    assert_eq!(format_u64(7), b"7".to_vec());
    assert_eq!(format_u64(10), b"10".to_vec());
    assert_eq!(format_u64(4096), b"4096".to_vec());
    assert_eq!(format_u64(u64::MAX), u64::MAX.to_string().into_bytes());
    for n in [0u64, 1, 9, 10, 99, 100, 12345, u64::MAX - 1, u64::MAX] {
        assert_eq!(format_u64(n), n.to_string().into_bytes());
        assert_eq!(parse_u64(&format_u64(n)), Some(n));
    }
}

#[test]
fn host_errors_carry_their_debug_text() {
    let message = |e: reqwest::Error| match e.source {
        Some(reqwest::error::Source::Io(reqwest::error::IoErrorKind::Other, m)) => m,
        other => panic!("unexpected {:?}", other),
    };
    assert_eq!(message(error_from_error_code(&ErrorCode::DnsTimeout)), "ErrorCode::DnsTimeout");
    assert_eq!(message(error_from_header_error(&HeaderError::Forbidden)), "HeaderError::Forbidden");
    assert_eq!(message(error_from_stream_error(&StreamError::Closed)), "StreamError::Closed");
}
