use open_web_server::redirects::{redirect_location, RedirectError, RedirectRegistry, RedirectRule, REDIRECT_STATUS};

fn sample(host: &str, redirect_to: &str) -> RedirectRule {
    RedirectRule { host: host.to_string(), redirect_to: redirect_to.to_string() }
}

#[test]
fn redirects_upsert_and_resolve() {
    let mut registry = RedirectRegistry::new();
    registry.upsert(sample("www.audiocafe.tokyo", "https://audiocafe.tokyo"));

    let resolved = registry.resolve("www.audiocafe.tokyo");
    assert!(resolved.is_some());
    assert_eq!(resolved.unwrap().redirect_to, "https://audiocafe.tokyo");
}

#[test]
fn redirects_resolve_strips_port() {
    let mut registry = RedirectRegistry::new();
    registry.upsert(sample("www.audiocafe.tokyo", "https://audiocafe.tokyo"));
    assert!(registry.resolve("www.audiocafe.tokyo:8080").is_some());
}

#[test]
fn redirects_resolve_unknown_is_none() {
    let registry = RedirectRegistry::new();
    assert!(registry.resolve("unknown.example.com").is_none());
}

#[test]
fn redirects_remove_missing_fails() {
    let mut registry = RedirectRegistry::new();
    let err = registry.remove("nope.example.com").unwrap_err();
    assert!(matches!(err, RedirectError::NotFound(_)));
    assert_eq!(err.message(), "host 'nope.example.com' is not registered");
}

#[test]
fn redirects_remove_then_resolve_is_none() {
    let mut registry = RedirectRegistry::new();
    registry.upsert(sample("www.audiocafe.tokyo", "https://audiocafe.tokyo"));
    registry.remove("www.audiocafe.tokyo").unwrap();
    assert!(registry.resolve("www.audiocafe.tokyo").is_none());
}

#[test]
fn redirects_load_from_toml_bulk_provisioning() {
    let mut registry = RedirectRegistry::new();
    let count = registry.load(vec![
        sample("www.audiocafe.tokyo", "https://audiocafe.tokyo"),
        sample("www.aruaru.tokyo", "https://aruaru.tokyo"),
    ]);
    assert_eq!(count, 2);
    assert_eq!(registry.len(), 2);
    assert!(registry.resolve("www.audiocafe.tokyo").is_some());
    assert!(registry.resolve("www.aruaru.tokyo").is_some());
}

#[test]
fn build_redirect_response_appends_path_and_query() {
    let rule = sample("www.audiocafe.tokyo", "https://audiocafe.tokyo");
    assert_eq!(REDIRECT_STATUS, 301);
    assert_eq!(redirect_location(&rule, "/foo/bar?x=1"), "https://audiocafe.tokyo/foo/bar?x=1");
}

#[test]
fn build_redirect_response_handles_trailing_slash_in_redirect_to() {
    let rule = sample("www.audiocafe.tokyo", "https://audiocafe.tokyo/");
    assert_eq!(redirect_location(&rule, "/"), "https://audiocafe.tokyo/");
}

#[test]
fn build_redirect_response_root_path() {
    let rule = sample("www.audiocafe.tokyo", "https://audiocafe.tokyo");
    assert_eq!(redirect_location(&rule, "/"), "https://audiocafe.tokyo/");
}

#[test]
fn upsert_twice_keeps_one_rule_per_host() {
    let mut registry = RedirectRegistry::new();
    registry.upsert(sample("a.example", "https://one.example"));
    registry.upsert(sample("a.example", "https://two.example"));
    assert_eq!(registry.len(), 1);
    assert_eq!(registry.get(0).redirect_to, "https://two.example");
}

#[test]
fn list_returns_rules_in_registration_order() {
    let mut registry = RedirectRegistry::new();
    registry.upsert(sample("b.example", "https://b"));
    registry.upsert(sample("a.example", "https://a"));
    let hosts: Vec<String> = registry.list().into_iter().map(|r| r.host).collect();
    assert_eq!(hosts, vec!["b.example", "a.example"]);
}
