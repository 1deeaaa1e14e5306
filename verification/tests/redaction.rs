use hyper::header::{HeaderName, HeaderValue};
use hyper::HeaderMap;
use tlsn_langchain::redaction::{collect_private_values, extract_private_data};

fn headers(fields: &[(&'static str, &'static str)]) -> HeaderMap {
    let mut map = HeaderMap::new();
    for (name, value) in fields {
        map.append(HeaderName::from_static(name), HeaderValue::from_static(value));
    }
    map
}

#[test]
fn collects_the_values_of_censored_headers() {
    let map = headers(&[
        ("host", "api.red-pill.ai"),
        ("authorization", "Bearer abc123"),
        ("content-type", "application/json"),
    ]);
    let mut private: Vec<Vec<u8>> = Vec::new();
    extract_private_data(&mut private, &map, &["authorization"]);
    assert_eq!(private, vec![b"Bearer abc123".to_vec()]);
}

#[test]
fn the_same_value_twice_is_kept_once() {
    let map = headers(&[("request-id", "r-1"), ("request-id", "r-1")]);
    let mut private: Vec<Vec<u8>> = Vec::new();
    extract_private_data(&mut private, &map, &["request-id"]);
    assert_eq!(private, vec![b"r-1".to_vec()]);
    extract_private_data(&mut private, &map, &["request-id"]);
    assert_eq!(private, vec![b"r-1".to_vec()]);
}

#[test]
fn the_same_value_under_two_censored_names_is_kept_once() {
    let map = headers(&[("request-id", "77aa"), ("x-kong-request-id", "77aa")]);
    let mut private: Vec<Vec<u8>> = Vec::new();
    extract_private_data(&mut private, &map, &["request-id", "x-kong-request-id"]);
    assert_eq!(private, vec![b"77aa".to_vec()]);
}

#[test]
fn a_header_that_is_not_censored_adds_nothing() {
    let map = headers(&[("server", "77aa"), ("cf-ray", "77aa"), ("date", "today")]);
    let mut private: Vec<Vec<u8>> = Vec::new();
    extract_private_data(&mut private, &map, &["request-id"]);
    assert!(private.is_empty());
    let only_uncensored = headers(&[("server", "77aa")]);
    extract_private_data(&mut private, &only_uncensored, &["cf-ray"]);
    assert!(private.is_empty());
    extract_private_data(&mut private, &map, &["cf-ray"]);
    assert_eq!(private, vec![b"77aa".to_vec()]);
}

#[test]
fn every_value_of_a_censored_name_is_collected_in_order() {
    let map = headers(&[("cf-ray", "one"), ("server-timing", "two"), ("cf-ray", "three")]);
    let mut private: Vec<Vec<u8>> = Vec::new();
    extract_private_data(&mut private, &map, &["cf-ray", "server-timing"]);
    assert_eq!(private.len(), 3);
    assert!(private.contains(&b"one".to_vec()));
    assert!(private.contains(&b"two".to_vec()));
    assert!(private.contains(&b"three".to_vec()));
    let walked: Vec<Vec<u8>> = map.iter().map(|(_, v)| v.as_bytes().to_vec()).collect();
    assert_eq!(private, walked);
}

#[test]
fn what_the_set_held_stays_in_front() {
    let map = headers(&[("report-to", "b"), ("report-to", "a"), ("report-to", "c")]);
    let mut private: Vec<Vec<u8>> = vec![b"a".to_vec()];
    extract_private_data(&mut private, &map, &["report-to"]);
    assert_eq!(private, vec![b"a".to_vec(), b"b".to_vec(), b"c".to_vec()]);
}

#[test]
fn topics_are_matched_exactly() {
    let map = headers(&[("authorization", "Bearer k")]);
    let mut private: Vec<Vec<u8>> = Vec::new();
    extract_private_data(&mut private, &map, &["Authorization", "authorizatio", "authorizations"]);
    assert!(private.is_empty());
    extract_private_data(&mut private, &map, &[]);
    assert!(private.is_empty());
}

#[test]
fn no_headers_add_nothing() {
    let mut private: Vec<Vec<u8>> = vec![b"kept".to_vec()];
    extract_private_data(&mut private, &HeaderMap::new(), &["authorization"]);
    assert_eq!(private, vec![b"kept".to_vec()]);
}

#[test]
fn plain_fields_are_looked_through_in_order() {
    let fields: Vec<(String, Vec<u8>)> = vec![
        ("a".to_string(), b"1".to_vec()),
        ("b".to_string(), b"2".to_vec()),
        ("a".to_string(), b"2".to_vec()),
        ("c".to_string(), b"3".to_vec()),
        ("a".to_string(), Vec::new()),
    ];
    let mut private: Vec<Vec<u8>> = Vec::new();
    collect_private_values(&mut private, &fields, &["a", "b"]);
    assert_eq!(private, vec![b"1".to_vec(), b"2".to_vec(), Vec::new()]);
}
