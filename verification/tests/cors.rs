use open_web_server::cors::{
    allowed_origins, is_enabled, is_preflight, preflight_response_headers, response_headers, PREFLIGHT_STATUS,
};

fn header<'a>(headers: &'a [(String, String)], name: &str) -> Option<&'a str> {
    headers.iter().find(|(n, _)| n == name).map(|(_, v)| v.as_str())
}

fn matched(setting: Option<&str>, origin: &str) -> Option<String> {
    header(&response_headers(setting, Some(origin)), "access-control-allow-origin").map(str::to_string)
}

#[test]
fn disabled_by_default_when_env_unset() {
    assert!(!is_enabled(None));
    assert!(matched(None, "http://localhost:9000").is_none());
}

#[test]
fn matches_allowed_origin_from_comma_separated_list() {
    let setting = Some("http://a.example, http://b.example");
    assert_eq!(matched(setting, "http://b.example"), Some("http://b.example".to_string()));
    assert_eq!(
        allowed_origins(setting),
        Some(vec!["http://a.example".to_string(), "http://b.example".to_string()])
    );
}

#[test]
fn rejects_origin_not_in_allow_list() {
    assert!(matched(Some("http://a.example"), "http://evil.example").is_none());
}

#[test]
fn preflight_detection_requires_request_method_header() {
    assert!(!is_preflight(true, false));
    assert!(is_preflight(true, true));
    assert!(!is_preflight(false, true));
}

#[test]
fn handle_preflight_returns_none_when_disabled() {
    assert!(preflight_response_headers(None, true, true, Some("http://a.example")).is_none());
}

#[test]
fn handle_preflight_returns_204_with_headers_for_allowed_origin() {
    let headers = preflight_response_headers(Some("http://a.example"), true, true, Some("http://a.example"))
        .expect("allowed origin should get a preflight response");
    assert_eq!(PREFLIGHT_STATUS, 204);
    assert_eq!(header(&headers, "access-control-allow-origin"), Some("http://a.example"));
    assert!(header(&headers, "access-control-allow-headers").unwrap().contains("x-admin-token"));
    assert_eq!(header(&headers, "access-control-allow-methods"), Some("GET, POST, PUT, DELETE, OPTIONS"));
    assert_eq!(header(&headers, "vary"), Some("origin"));
}

#[test]
fn handle_preflight_returns_none_for_disallowed_origin() {
    assert!(preflight_response_headers(Some("http://a.example"), true, true, Some("http://evil.example")).is_none());
    assert!(preflight_response_headers(Some("http://a.example"), true, false, Some("http://a.example")).is_none());
}

#[test]
fn apply_response_headers_adds_headers_only_for_allowed_origin() {
    let allowed = response_headers(Some("http://a.example"), Some("http://a.example"));
    assert_eq!(header(&allowed, "access-control-allow-origin"), Some("http://a.example"));
    assert_eq!(allowed.len(), 4);

    let disallowed = response_headers(Some("http://a.example"), Some("http://evil.example"));
    assert!(disallowed.is_empty());
    assert!(response_headers(Some("http://a.example"), None).is_empty());
}

#[test]
fn blank_setting_disables_cors() {
    assert!(!is_enabled(Some(" , ")));
    assert!(is_enabled(Some("http://a.example")));
}
