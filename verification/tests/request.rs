use hyper::header::{HeaderName, HeaderValue};
use hyper::HeaderMap;
use tlsn_langchain::config::{ModelApiSettings, ModelSettings, PrivacySettings};
use tlsn_langchain::payload::parse_payload;
use tlsn_langchain::redaction::{collect_private_values, extract_private_data};
use tlsn_langchain::request::{generate_request, is_header_value, HttpMethod, RequestError};

fn settings(key: &str) -> ModelSettings {
    ModelSettings::new("gpt-4o".to_string(), ModelApiSettings::new(key.to_string()))
}

fn messages() -> Vec<serde_json::Value> {
    parse_payload(&vec![
        "{\"role\": \"user\", \"content\": \"hi im bob!\"}".to_string(),
        "{\"role\": \"assistant\", \"content\": \"Hi Bob!\"}".to_string(),
    ])
    .unwrap()
}

#[test]
fn the_request_is_a_post_to_the_inference_route() {
    let request = generate_request(messages(), &settings("abc123")).unwrap();
    assert_eq!(request.method, HttpMethod::Post);
    assert_eq!(request.uri, "/v1/chat/completions");
    assert_eq!(
        request.headers,
        vec![
            ("host".to_string(), b"api.red-pill.ai".to_vec()),
            ("accept-encoding".to_string(), b"identity".to_vec()),
            ("connection".to_string(), b"close".to_vec()),
            ("content-type".to_string(), b"application/json".to_vec()),
            ("authorization".to_string(), b"Bearer abc123".to_vec()),
        ]
    );
}

#[test]
fn the_body_holds_the_model_and_the_messages_in_order() {
    let request = generate_request(messages(), &settings("abc123")).unwrap();
    assert_eq!(
        request.body,
        "{\"messages\":[{\"content\":\"hi im bob!\",\"role\":\"user\"},\
         {\"content\":\"Hi Bob!\",\"role\":\"assistant\"}],\"model\":\"gpt-4o\"}"
    );
    let body: serde_json::Value = serde_json::from_str(&request.body).unwrap();
    let object = body.as_object().unwrap();
    assert_eq!(object.len(), 2);
    assert_eq!(object.get("model").and_then(|m| m.as_str()), Some("gpt-4o"));
    assert_eq!(object.get("messages").and_then(|m| m.as_array()), Some(&messages()));
}

#[test]
fn a_body_without_messages_and_a_name_with_quotes() {
    let model = ModelSettings::new("a\"b".to_string(), ModelApiSettings::new("k".to_string()));
    let request = generate_request(Vec::new(), &model).unwrap();
    assert_eq!(request.body, "{\"messages\":[],\"model\":\"a\\\"b\"}");
}

#[test]
fn a_key_that_no_header_can_hold_is_refused() {
    assert_eq!(
        generate_request(messages(), &settings("a\nb")).unwrap_err(),
        RequestError::InvalidAuthorization
    );
    assert_eq!(
        generate_request(messages(), &settings("key\u{7f}")).unwrap_err(),
        RequestError::InvalidAuthorization
    );
    assert_eq!(
        generate_request(messages(), &settings("\r")).unwrap_err().message(),
        "Error building the request"
    );
    assert!(generate_request(messages(), &settings("tab\tand space")).is_ok());
    assert!(generate_request(messages(), &settings("cl\u{e9}")).is_ok());
    assert!(generate_request(messages(), &settings("")).is_ok());
}

#[test]
fn a_server_name_that_no_header_can_hold_is_refused_first() {
    let mut model = settings("a\nb");
    model.api_settings.server_domain = "bad\u{0}host";
    assert_eq!(generate_request(messages(), &model).unwrap_err(), RequestError::InvalidHost);
    let mut model = settings("fine");
    model.api_settings.server_domain = "bad\nhost";
    assert_eq!(generate_request(messages(), &model).unwrap_err(), RequestError::InvalidHost);
}

#[test]
fn header_values_are_judged_as_the_header_map_judges_them() {
    for byte in 0..=255u8 {
        let value = [b'a', byte, b'z'];
        assert_eq!(is_header_value(&value), HeaderValue::from_bytes(&value).is_ok());
    }
    assert!(is_header_value(b""));
}

#[test]
fn only_the_authorization_value_of_a_request_is_private() {
    let request = generate_request(Vec::new(), &settings("s3cr3t")).unwrap();
    let privacy = PrivacySettings::default();
    let mut from_fields: Vec<Vec<u8>> = Vec::new();
    collect_private_values(&mut from_fields, &request.headers, privacy.request_topics_to_censor);
    assert_eq!(from_fields, vec![b"Bearer s3cr3t".to_vec()]);

    let mut map = HeaderMap::new();
    for (name, value) in &request.headers {
        map.append(
            HeaderName::from_bytes(name.as_bytes()).unwrap(),
            HeaderValue::from_bytes(value).unwrap(),
        );
    }
    let mut from_map: Vec<Vec<u8>> = Vec::new();
    extract_private_data(&mut from_map, &map, privacy.request_topics_to_censor);
    assert_eq!(from_map, from_fields);
}
