use http::header::{HeaderMap, HeaderName, HeaderValue};
use reqwest::client::Client;
use reqwest::headers::{
    fields_to_header_map, insert_every, value_count, visible_header_pairs, HEADER_MAP_SAFE_LEN,
};

fn value_of(m: &HeaderMap, name: &str) -> Option<Vec<u8>> {
    let n = HeaderName::from_bytes(name.as_bytes()).unwrap();
    m.get(&n).map(|v| v.as_bytes().to_vec())
}

fn one_field(name: &str, value: &[u8]) -> Vec<(String, Vec<u8>)> {
    vec![(name.to_string(), value.to_vec())]
}

#[test]
fn insert_replaces_and_keeps_other_names() {
    let mut m = HeaderMap::new();
    let mut from = HeaderMap::new();
    from.insert(HeaderName::from_static("a"), HeaderValue::from_static("1"));
    from.insert(HeaderName::from_static("b"), HeaderValue::from_static("2"));
    insert_every(&mut m, &from);
    let mut again = HeaderMap::new();
    again.insert(HeaderName::from_static("a"), HeaderValue::from_static("3"));
    insert_every(&mut m, &again);
    assert_eq!(value_of(&m, "a"), Some(b"3".to_vec()));
    assert_eq!(value_of(&m, "b"), Some(b"2".to_vec()));
    assert_eq!(value_of(&m, "c"), None);
    assert_eq!(m.len(), 2);
    assert_eq!(value_count(&m), 2);
}

#[test]
fn value_count_counts_every_value() {
    let mut m = HeaderMap::new();
    assert_eq!(value_count(&m), 0);
    m.append("x-multi", HeaderValue::from_static("first"));
    m.append("x-multi", HeaderValue::from_static("second"));
    m.insert("accept", HeaderValue::from_static("*/*"));
    assert_eq!(value_count(&m), 3);
}

#[test]
fn insert_every_later_pairs_override() {
    let mut into = HeaderMap::new();
    into.insert("accept", HeaderValue::from_static("*/*"));
    into.insert("x-keep", HeaderValue::from_static("k"));
    let mut from = HeaderMap::new();
    from.append("x-multi", HeaderValue::from_static("first"));
    from.append("x-multi", HeaderValue::from_static("second"));
    from.insert("accept", HeaderValue::from_static("text/plain"));
    insert_every(&mut into, &from);
    assert_eq!(value_of(&into, "x-multi"), Some(b"second".to_vec()));
    assert_eq!(into.get_all("x-multi").iter().count(), 1);
    assert_eq!(value_of(&into, "accept"), Some(b"text/plain".to_vec()));
    assert_eq!(value_of(&into, "x-keep"), Some(b"k".to_vec()));
}

#[test]
fn visible_pairs_skip_opaque_values_and_keep_order() {
    let mut m = HeaderMap::new();
    m.insert("a", HeaderValue::from_static("plain"));
    m.insert("b", HeaderValue::from_bytes(b"caf\xc3\xa9").unwrap());
    m.append("a", HeaderValue::from_static("again"));
    m.insert("c", HeaderValue::from_bytes(b"tab\there").unwrap());
    let mut out = vec![("first".to_string(), b"x".to_vec())];
    visible_header_pairs(&m, &mut out);
    assert_eq!(
        out,
        vec![
            ("first".to_string(), b"x".to_vec()),
            ("a".to_string(), b"plain".to_vec()),
            ("a".to_string(), b"again".to_vec()),
            ("c".to_string(), b"tab\there".to_vec()),
        ]
    );
}

#[test]
fn fields_become_lower_case_names_with_the_last_value() {
    let fields = vec![
        ("Content-Type".to_string(), b"text/html".to_vec()),
        ("Set-Cookie".to_string(), b"a=1".to_vec()),
        ("set-cookie".to_string(), b"b=2".to_vec()),
    ];
    let m = fields_to_header_map(&fields).unwrap();
    assert_eq!(m.len(), 2);
    assert_eq!(value_of(&m, "content-type"), Some(b"text/html".to_vec()));
    assert_eq!(value_of(&m, "set-cookie"), Some(b"b=2".to_vec()));
    let names: Vec<&str> = m.keys().map(|k| k.as_str()).collect();
    assert_eq!(names, vec!["content-type", "set-cookie"]);
}

#[test]
fn header_name_validity() {
    let m = fields_to_header_map(&one_field("X-Custom", b"v")).unwrap();
    assert_eq!(m.keys().next().unwrap().as_str(), "x-custom");
    assert!(Client::fields_acceptable(&one_field("X-Custom", b"v")));
    assert!(!Client::fields_acceptable(&one_field("", b"v")));
    assert!(!Client::fields_acceptable(&one_field("bad name", b"v")));
    assert!(!Client::fields_acceptable(&one_field("bad:name", b"v")));
    assert!(Client::fields_acceptable(&one_field("ok!#$%&'*+-.^_`|~09", b"v")));
}

#[test]
fn header_value_validity() {
    assert!(Client::fields_acceptable(&one_field("x", b"fine value\t")));
    assert!(Client::fields_acceptable(&one_field("x", b"\xff")));
    assert!(!Client::fields_acceptable(&one_field("x", b"bad\nvalue")));
    assert!(!Client::fields_acceptable(&one_field("x", b"del\x7f")));
}

#[test]
fn the_name_bound_counts_distinct_names() {
    let names = |n: usize| -> Vec<(String, Vec<u8>)> {
        (0..n).map(|i| (format!("x-{}", i), b"v".to_vec())).collect()
    };
    assert!(fields_to_header_map(&names(HEADER_MAP_SAFE_LEN)).is_none());
    let m = fields_to_header_map(&names(HEADER_MAP_SAFE_LEN - 1)).unwrap();
    assert_eq!(m.keys_len(), HEADER_MAP_SAFE_LEN - 1);
    // Many fields under few names are fine.
    let repeated: Vec<(String, Vec<u8>)> = (0..3 * HEADER_MAP_SAFE_LEN)
        .map(|i| (format!("x-{}", i % 3), format!("{}", i).into_bytes()))
        .collect();
    assert!(Client::fields_acceptable(&repeated));
    let m = fields_to_header_map(&repeated).unwrap();
    assert_eq!(m.keys_len(), 3);
    assert_eq!(value_of(&m, "x-0"), Some(format!("{}", 3 * HEADER_MAP_SAFE_LEN - 3).into_bytes()));
}
