use codex_api::anthropic_auth::AnthropicApiKeyAuthProvider;
use codex_api::headers::MAX_HEADER_NAMES;
use http::{HeaderMap, HeaderName, HeaderValue};

/// Whether a provider attaches an `authorization` header, and its name.
fn auth_header_telemetry(auth: &AnthropicApiKeyAuthProvider) -> (bool, Option<&'static str>) {
    let mut headers = HeaderMap::new();
    auth.add_auth_headers(&mut headers);
    if headers.contains_key(http::header::AUTHORIZATION) {
        (true, Some("authorization"))
    } else {
        (false, None)
    }
}

/// A map with `count` header names, none of them the provider's.
fn headers_with(count: usize) -> HeaderMap {
    let mut headers = HeaderMap::new();
    for i in 0..count {
        let name = HeaderName::from_bytes(format!("x-filler-{i}").as_bytes()).unwrap();
        headers.insert(name, HeaderValue::from_static("filler"));
    }
    headers
}

#[test]
fn anthropic_auth_adds_api_key_and_version_headers() {
    let auth = AnthropicApiKeyAuthProvider::new("sk-ant-test-key".to_string());
    let mut headers = HeaderMap::new();

    auth.add_auth_headers(&mut headers);

    assert_eq!(
        headers
            .get("x-api-key")
            .and_then(|value| value.to_str().ok()),
        Some("sk-ant-test-key")
    );
    assert_eq!(
        headers
            .get("anthropic-version")
            .and_then(|value| value.to_str().ok()),
        Some("2023-06-01")
    );
}

#[test]
fn anthropic_auth_without_key_adds_only_version_header() {
    let auth = AnthropicApiKeyAuthProvider::default();
    let mut headers = HeaderMap::new();

    auth.add_auth_headers(&mut headers);

    assert!(headers.get("x-api-key").is_none());
    assert_eq!(
        headers
            .get("anthropic-version")
            .and_then(|value| value.to_str().ok()),
        Some("2023-06-01")
    );
    assert_eq!(headers.len(), 1);
}

#[test]
fn anthropic_auth_reports_auth_header_telemetry() {
    let auth = AnthropicApiKeyAuthProvider::new("sk-ant-test-key".to_string());

    // Telemetry only checks for the `Authorization` header. Anthropic uses
    // `x-api-key`, so it reports as not attached.
    assert_eq!(auth_header_telemetry(&auth), (false, None));
}

#[test]
fn keys_that_are_no_header_value_are_left_out() {
    for key in ["line\nbreak", "nul\0", "del\u{7f}", "\r"] {
        let auth = AnthropicApiKeyAuthProvider::new(key.to_string());
        let mut headers = HeaderMap::new();
        auth.add_auth_headers(&mut headers);
        assert!(headers.get("x-api-key").is_none(), "{key:?}");
        assert_eq!(headers.get("anthropic-version").unwrap(), "2023-06-01");
    }
}

#[test]
fn tabs_and_other_scripts_may_stand_in_a_key() {
    for key in ["", "a\tb", "\u{e9}\u{4e2d}", "~ !"] {
        let auth = AnthropicApiKeyAuthProvider::new(key.to_string());
        let mut headers = HeaderMap::new();
        auth.add_auth_headers(&mut headers);
        assert_eq!(headers.get("x-api-key").unwrap().as_bytes(), key.as_bytes());
    }
}

#[test]
fn auth_replaces_its_own_headers_and_keeps_the_others() {
    let auth = AnthropicApiKeyAuthProvider::new("new".to_string());
    let mut headers = HeaderMap::new();
    headers.append("x-api-key", HeaderValue::from_static("old"));
    headers.append("x-api-key", HeaderValue::from_static("older"));
    headers.insert("authorization", HeaderValue::from_static("Bearer t"));
    headers.insert("anthropic-version", HeaderValue::from_static("1999-01-01"));

    auth.add_auth_headers(&mut headers);
    let once = headers.clone();
    auth.add_auth_headers(&mut headers);

    assert_eq!(headers, once);
    assert_eq!(headers.get_all("x-api-key").iter().count(), 1);
    assert_eq!(headers.get("x-api-key").unwrap(), "new");
    assert_eq!(headers.get("anthropic-version").unwrap(), "2023-06-01");
    assert_eq!(headers.get("authorization").unwrap(), "Bearer t");
    assert_eq!(headers.len(), 3);
}

#[test]
fn auth_without_key_keeps_a_key_that_is_there() {
    let mut headers = HeaderMap::new();
    headers.insert("x-api-key", HeaderValue::from_static("old"));
    AnthropicApiKeyAuthProvider::default().add_auth_headers(&mut headers);
    assert_eq!(headers.get("x-api-key").unwrap(), "old");
}

#[test]
fn auth_is_attached_where_there_is_room() {
    let auth = AnthropicApiKeyAuthProvider::new("key".to_string());

    let mut headers = headers_with(MAX_HEADER_NAMES - 1);
    assert!(auth.try_add_auth_headers(&mut headers));
    assert_eq!(headers.keys_len(), MAX_HEADER_NAMES + 1);
    assert_eq!(headers.get("x-api-key").unwrap(), "key");

    for count in [MAX_HEADER_NAMES, 10000, 24574] {
        let mut headers = headers_with(count);
        assert!(auth.try_add_auth_headers(&mut headers));
        assert_eq!(headers.keys_len(), count + 2);
        assert_eq!(headers.get("x-api-key").unwrap(), "key");
        assert_eq!(headers.get("anthropic-version").unwrap(), "2023-06-01");
    }
}

#[test]
fn auth_is_not_attached_where_there_is_no_room() {
    let auth = AnthropicApiKeyAuthProvider::new("key".to_string());

    let mut headers = headers_with(24576);
    let before = headers.clone();
    assert!(!auth.try_add_auth_headers(&mut headers));
    assert_eq!(headers, before);

    let mut headers = headers_with(24575);
    assert!(!auth.try_add_auth_headers(&mut headers));
    assert_eq!(headers.keys_len(), 24576);
    assert_eq!(headers.get("x-api-key").unwrap(), "key");
    assert!(headers.get("anthropic-version").is_none());
}

#[test]
fn attaching_auth_again_changes_nothing_in_any_request() {
    let auth = AnthropicApiKeyAuthProvider::new("key".to_string());
    for count in [0, 24570, 24574] {
        let mut headers = headers_with(count);
        assert!(auth.try_add_auth_headers(&mut headers));
        let once = headers.clone();
        auth.try_add_auth_headers(&mut headers);
        assert_eq!(headers, once);
        assert!(headers.get("authorization").is_none());
    }
}

#[test]
fn cloned_auth_has_the_same_key() {
    let auth = AnthropicApiKeyAuthProvider::new("key".to_string());
    assert_eq!(auth.clone().api_key, Some("key".to_string()));
}
