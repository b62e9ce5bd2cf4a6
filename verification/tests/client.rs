use http::header::{HeaderMap, HeaderValue};
use reqwest::client::{Client, ClientBuilder};
use reqwest::error::{Kind, Source};
use reqwest::method::{Method, WasiMethod};
use reqwest::response::{charset_label, content_length, decode_text, status_error};
use reqwest::status::StatusCode;
use reqwest::timeout::Timeout;
use reqwest::url::{ParsedUrl, WasiScheme};

type TestBody = reqwest::body::Body<std::io::Cursor<Vec<u8>>, ()>;

fn with_reactor<T>(f: impl FnOnce(wasi_async_runtime::Reactor) -> T) -> T {
    wasi_async_runtime::block_on(|reactor| async move { f(reactor) })
}

fn get(m: &HeaderMap, name: &'static str) -> Option<Vec<u8>> {
    m.get(http::HeaderName::from_static(name)).map(|v| v.as_bytes().to_vec())
}

#[test]
fn a_new_client_accepts_everything() {
    with_reactor(|reactor| {
        let client = Client::new(reactor);
        let req = client.get::<std::io::Cursor<Vec<u8>>, ()>("http://example.com/x").build().unwrap();
        let plan = client.plan(req);
        assert_eq!(plan.headers, vec![("accept".to_string(), b"*/*".to_vec())]);
        assert!(matches!(plan.method, WasiMethod::Get));
        assert!(matches!(plan.scheme, WasiScheme::Http));
        assert_eq!(plan.authority, "example.com");
        assert_eq!(plan.path_with_query, "/x");
        assert_eq!(plan.connect_timeout, Some(30_000_000_000));
        assert_eq!(plan.first_byte_timeout, Some(30_000_000_000));
        assert_eq!(plan.between_bytes_timeout, Some(30_000_000_000));
        assert_eq!(plan.receive_timeout.unwrap().as_secs(), 30);
        assert!(plan.body.is_none());
    });
}

#[test]
fn builder_settings_reach_the_request() {
    with_reactor(|reactor| {
        let mut defaults = HeaderMap::new();
        defaults.insert("x-team", HeaderValue::from_static("blue"));
        defaults.insert("accept", HeaderValue::from_static("application/json"));
        let client = ClientBuilder::new(reactor)
            .user_agent("tester/1.0")
            .default_headers(defaults)
            .timeout(Some(Timeout::from_secs(5)))
            .connect_timeout(Some(Timeout::from_millis(200)))
            .build()
            .unwrap();
        let mut req = client
            .post::<std::io::Cursor<Vec<u8>>, ()>("https://api.example.com:8443/v1/items?page=2")
            .build()
            .unwrap();
        let mut extra = HeaderMap::new();
        extra.insert("x-request", HeaderValue::from_static("1"));
        extra.insert("x-binary", HeaderValue::from_bytes(b"\xff").unwrap());
        req.set_headers(extra);
        req.set_body(Some(TestBody::from_vec(b"payload".to_vec())));
        let plan = client.plan(req);
        assert_eq!(
            plan.headers,
            vec![
                ("accept".to_string(), b"application/json".to_vec()),
                ("user-agent".to_string(), b"tester/1.0".to_vec()),
                ("x-team".to_string(), b"blue".to_vec()),
                ("x-request".to_string(), b"1".to_vec()),
            ]
        );
        assert!(matches!(plan.method, WasiMethod::Post));
        assert!(matches!(plan.scheme, WasiScheme::Https));
        assert_eq!(plan.authority, "api.example.com:8443");
        assert_eq!(plan.path_with_query, "/v1/items?page=2");
        assert_eq!(plan.connect_timeout, Some(200_000_000));
        assert_eq!(plan.first_byte_timeout, Some(5_000_000_000));
        assert_eq!(plan.between_bytes_timeout, Some(5_000_000_000));
        assert_eq!(plan.receive_timeout.unwrap().as_secs(), 5);
        assert_eq!(plan.body.unwrap().as_bytes(), Some(&b"payload"[..]));
    });
}

#[test]
fn a_request_timeout_overrides_the_client_timeout() {
    with_reactor(|reactor| {
        let client = ClientBuilder::new(reactor).timeout(Some(Timeout::from_secs(30))).build().unwrap();
        let mut req = client.request::<std::io::Cursor<Vec<u8>>, ()>(Method::Delete, "http://h/").build().unwrap();
        req.set_timeout(Some(Timeout::from_millis(1)));
        let plan = client.plan(req);
        assert!(matches!(plan.method, WasiMethod::Delete));
        assert_eq!(plan.first_byte_timeout, Some(1_000_000));
        assert_eq!(plan.between_bytes_timeout, Some(1_000_000));
        assert_eq!(plan.receive_timeout.unwrap().as_nanos(), 1_000_000);
    });
}

#[test]
fn an_invalid_user_agent_fails_the_build() {
    with_reactor(|reactor| {
        let r = ClientBuilder::new(reactor).user_agent("bad\nagent").build();
        match r {
            Err(e) => {
                assert!(matches!(e.kind, Kind::Builder));
                assert!(matches!(e.source, Some(Source::InvalidHeaderValue)));
            }
            Ok(_) => panic!("expected an error"),
        }
    });
}

#[test]
fn an_invalid_url_fails_the_request() {
    with_reactor(|reactor| {
        let client = Client::new(reactor);
        let r = client.put::<std::io::Cursor<Vec<u8>>, ()>("::not a url").build();
        assert!(matches!(r, Err(ref e) if matches!(e.kind, Kind::Builder)));
        assert!(client.head::<std::io::Cursor<Vec<u8>>, ()>("http://h").build().is_ok());
        assert!(client.patch::<std::io::Cursor<Vec<u8>>, ()>("http://h").build().is_ok());
    });
}

#[test]
fn response_heads() {
    let fields = vec![
        ("Content-Length".to_string(), b"12".to_vec()),
        ("Content-Type".to_string(), b"text/plain; charset=iso-8859-1".to_vec()),
    ];
    assert!(Client::fields_acceptable(&fields));
    let (status, headers) = Client::response_head(201, &fields).unwrap().unwrap();
    assert_eq!(status.as_u16(), 201);
    assert_eq!(get(&headers, "content-length"), Some(b"12".to_vec()));
    assert_eq!(content_length(&headers), Some(12));
    assert_eq!(charset_label(&headers, "utf-8"), "iso-8859-1");
    let e = Client::response_head(42, &fields).unwrap_err();
    assert!(matches!(e.kind, Kind::Decode));
    let bad = vec![("bad name".to_string(), b"x".to_vec())];
    assert!(!Client::fields_acceptable(&bad));
    let bad_value = vec![("ok".to_string(), b"a\nb".to_vec())];
    assert!(!Client::fields_acceptable(&bad_value));
}

#[test]
fn content_length_needs_a_number() {
    let mut h = HeaderMap::new();
    assert_eq!(content_length(&h), None);
    h.insert("content-length", HeaderValue::from_static("abc"));
    assert_eq!(content_length(&h), None);
    h.insert("content-length", HeaderValue::from_static("+7"));
    assert_eq!(content_length(&h), Some(7));
    h.insert("content-length", HeaderValue::from_bytes(b"1\xff").unwrap());
    assert_eq!(content_length(&h), None);
}

#[test]
fn charset_defaults() {
    let mut h = HeaderMap::new();
    assert_eq!(charset_label(&h, "utf-8"), "utf-8");
    h.insert("content-type", HeaderValue::from_static("application/json"));
    assert_eq!(charset_label(&h, "latin1"), "latin1");
    h.insert("content-type", HeaderValue::from_static("text/html; charset=\"Shift_JIS\""));
    assert_eq!(charset_label(&h, "utf-8").to_lowercase(), "shift_jis");
}

#[test]
fn text_decoding() {
    assert_eq!(decode_text("utf-8", "héllo".as_bytes()), "héllo");
    assert_eq!(decode_text("iso-8859-1", b"caf\xe9"), "café");
    assert_eq!(decode_text("no-such-encoding", "ok".as_bytes()), "ok");
    assert_eq!(decode_text("utf-8", b"bad\xff"), "bad\u{fffd}");
    assert_eq!(decode_text("iso-8859-1", b"\xef\xbb\xbfhi"), "hi");
    assert_eq!(decode_text("utf-8", b"\xef\xbb\xbfhi"), "hi");
    assert_eq!(decode_text("utf-8", b"\xff\xfeh\x00i\x00"), "hi");
    assert_eq!(decode_text("utf-16le", b"h\x00i\x00"), "hi");
}

#[test]
fn error_statuses() {
    let url = ParsedUrl::parse("http://example.com/p").unwrap();
    for (code, is_err) in [(200u16, false), (302, false), (399, false), (400, true), (404, true), (499, true), (500, true), (599, true), (600, false)] {
        let s = StatusCode::from_u16(code).unwrap();
        let r = status_error(&s, &url);
        assert_eq!(r.is_some(), is_err, "{}", code);
        if let Some(e) = r {
            assert!(matches!(e.kind, Kind::Status(c) if c == code));
            assert_eq!(e.url.unwrap().as_str(), "http://example.com/p");
        }
    }
}

#[test]
fn header_count_follows_the_builder() {
    with_reactor(|reactor| {
        let b = ClientBuilder::new(reactor);
        assert_eq!(b.header_count(), 1);
        let b = b.user_agent("a/1");
        assert_eq!(b.header_count(), 2);
        let b = b.user_agent("a/2");
        assert_eq!(b.header_count(), 2);
        let mut extra = HeaderMap::new();
        extra.append("x-one", HeaderValue::from_static("1"));
        extra.append("x-one", HeaderValue::from_static("2"));
        let b = b.default_headers(extra);
        assert_eq!(b.header_count(), 3);
    });
}

#[test]
fn without_a_timeout_nothing_times_out() {
    with_reactor(|reactor| {
        let client = ClientBuilder::new(reactor).timeout(None).build().unwrap();
        let req = client.get::<std::io::Cursor<Vec<u8>>, ()>("http://h/").build().unwrap();
        let plan = client.plan(req);
        assert_eq!(plan.connect_timeout, None);
        assert_eq!(plan.first_byte_timeout, None);
        assert_eq!(plan.between_bytes_timeout, None);
        assert!(plan.receive_timeout.is_none());
    });
}

#[test]
fn the_timeout_bounds_connecting_unless_a_connect_timeout_is_set() {
    with_reactor(|reactor| {
        let client = ClientBuilder::new(reactor).timeout(Some(Timeout::from_secs(7))).build().unwrap();
        let req = client.get::<std::io::Cursor<Vec<u8>>, ()>("http://h/").build().unwrap();
        assert_eq!(client.plan(req).connect_timeout, Some(7_000_000_000));
    });
}

#[test]
fn a_sized_body_announces_its_length() {
    with_reactor(|reactor| {
        let client = Client::new(reactor);
        let mut req = client.post::<std::io::Cursor<Vec<u8>>, ()>("http://h/up").build().unwrap();
        req.set_body(Some(TestBody::sized(std::io::Cursor::new(b"1234567".to_vec()), 7)));
        let plan = client.plan(req);
        assert_eq!(
            plan.headers,
            vec![
                ("accept".to_string(), b"*/*".to_vec()),
                ("content-length".to_string(), b"7".to_vec()),
            ]
        );
    });
}

#[test]
fn a_set_length_header_is_kept_and_other_bodies_send_none() {
    with_reactor(|reactor| {
        let client = Client::new(reactor);
        let mut req = client.post::<std::io::Cursor<Vec<u8>>, ()>("http://h/up").build().unwrap();
        let mut h = HeaderMap::new();
        h.insert("content-length", HeaderValue::from_static("10"));
        req.set_headers(h);
        req.set_body(Some(TestBody::sized(std::io::Cursor::new(b"0123456789".to_vec()), 10)));
        let plan = client.plan(req);
        assert_eq!(
            plan.headers,
            vec![
                ("accept".to_string(), b"*/*".to_vec()),
                ("content-length".to_string(), b"10".to_vec()),
            ]
        );
        let mut req = client.post::<std::io::Cursor<Vec<u8>>, ()>("http://h/up").build().unwrap();
        req.set_body(Some(TestBody::new(std::io::Cursor::new(b"abc".to_vec()))));
        assert_eq!(client.plan(req).headers.len(), 1);
        let mut req = client.post::<std::io::Cursor<Vec<u8>>, ()>("http://h/up").build().unwrap();
        req.set_body(Some(TestBody::from_vec(b"abc".to_vec())));
        assert_eq!(client.plan(req).headers.len(), 1);
    });
}

#[test]
fn a_builder_error_outlives_later_settings() {
    with_reactor(|reactor| {
        let r = ClientBuilder::new(reactor)
            .user_agent("bad\nagent")
            .user_agent("good/1.0")
            .timeout(None)
            .build();
        assert!(matches!(r, Err(ref e) if matches!(e.source, Some(Source::InvalidHeaderValue))));
    });
}
