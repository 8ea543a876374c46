use axum::http::{HeaderMap, HeaderValue};
use gprox::api::{
    authenticate, bearer_matches, health, may_generate, unknown_endpoint, valid_bearer, ApiError,
};

fn headers(value: &[u8]) -> HeaderMap {
    let mut headers = HeaderMap::new();
    headers.insert("authorization", HeaderValue::from_bytes(value).unwrap());
    headers
}

#[test]
fn every_request_needs_the_key() {
    let error = authenticate(&HeaderMap::new(), "test-key").err().unwrap();
    assert_eq!(error.status, 401);
    assert_eq!(error.message, "Invalid or missing proxy API key");
    assert!(authenticate(&headers(b"Bearer test-key"), "test-key").is_ok());
    assert!(authenticate(&headers(b"Bearer wrong"), "test-key").is_err());
}

#[test]
fn a_key_must_match_exactly() {
    assert!(valid_bearer(&headers(b"Bearer test-key"), "test-key"));
    assert!(!valid_bearer(&headers(b"Bearer test-key "), "test-key"));
    assert!(!valid_bearer(&headers(b"bearer test-key"), "test-key"));
    assert!(!valid_bearer(&headers(b"Bearer  test-key"), "test-key"));
    assert!(!valid_bearer(&headers(b"test-key"), "test-key"));
    assert!(!valid_bearer(&headers(b"Bearer test-ke"), "test-key"));
    assert!(valid_bearer(&headers(b"Bearer "), ""));
    // Bytes that are no visible ASCII are no credential.
    assert!(!valid_bearer(&headers(b"Bearer \xc3\xa9"), "\u{e9}"));
    assert!(bearer_matches(Some("Bearer k"), "k"));
    assert!(!bearer_matches(Some("Bearer k"), "K"));
    assert!(!bearer_matches(None, "k"));
}

#[test]
fn the_first_authorization_header_counts() {
    let mut several = headers(b"Bearer one");
    several.append("authorization", HeaderValue::from_static("Bearer two"));
    assert!(valid_bearer(&several, "one"));
    assert!(!valid_bearer(&several, "two"));
}

#[test]
fn a_key_opens_only_its_own_listener() {
    let api = headers(b"Bearer api-key");
    assert!(valid_bearer(&api, "api-key"));
    assert!(!valid_bearer(&api, "management-token"));
}

#[test]
fn error_bodies_name_their_kind() {
    let cases = [
        (401, "authentication_error"),
        (429, "rate_limit_error"),
        (400, "invalid_request_error"),
        (404, "invalid_request_error"),
        (502, "server_error"),
        (504, "server_error"),
    ];
    for (status, kind) in cases {
        let body = ApiError::new(status, "why".to_owned()).body().to_value();
        assert_eq!(body["error"]["type"], kind);
        assert_eq!(body["error"]["message"], "why");
        assert_eq!(body["error"]["code"], status.to_string());
        assert!(body["error"]["param"].is_null());
    }
    assert_eq!(
        ApiError::bad("x").body().render(),
        r#"{"error":{"code":"400","message":"x","param":null,"type":"invalid_request_error"}}"#
    );
}

#[test]
fn requests_wait_for_no_slot() {
    assert!(may_generate(true, false).is_ok());
    let busy = may_generate(false, true).err().unwrap();
    assert_eq!(busy.status, 429);
    assert_eq!(busy.message, "Proxy is busy; retry later");
    let stopping = may_generate(true, true).err().unwrap();
    assert_eq!(stopping.status, 503);
    assert_eq!(stopping.message, "Proxy is stopping");
    assert_eq!(unknown_endpoint().status, 404);
    assert_eq!(unknown_endpoint().message, "Unknown endpoint");
    assert_eq!(health().render(), r#"{"status":"ok"}"#);
}
