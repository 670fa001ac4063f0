use std::path::PathBuf;

use open_web_server::rewrite::{RewriteCondition, RewriteRule};
use open_web_server::web_vhost::{AccessControlConfig, BasicAuthConfig, TlsCertConfig};
use open_web_server::web_vhost::{default_php_enabled, CompatMode, PhpMode, WebVhostConfig, WebVhostError, WebVhostRegistry};

fn sample(host: &str) -> WebVhostConfig {
    WebVhostConfig {
        host: host.to_string(),
        docroot: "/var/www/example".to_string(),
        php_enabled: true,
        compat_mode: CompatMode::default(),
        php_mode: PhpMode::default(),
        rewrite_rules: Vec::new(),
        basic_auth: None,
        tls_cert: None,
        access_control: None,
    }
}

fn site(host: &str, docroot: &str, php_enabled: bool, compat_mode: CompatMode, php_mode: PhpMode) -> WebVhostConfig {
    WebVhostConfig { host: host.to_string(), docroot: docroot.to_string(), php_enabled, compat_mode, php_mode, ..sample(host) }
}

#[test]
fn compat_mode_defaults_to_nginx_for_backward_compat() {
    assert_eq!(CompatMode::default(), CompatMode::Nginx);
}

#[test]
fn php_mode_defaults_to_builtin_server_for_backward_compat() {
    assert_eq!(PhpMode::default(), PhpMode::BuiltinServer);
}

#[test]
fn php_enabled_defaults_to_true() {
    assert!(default_php_enabled());
}

#[test]
fn load_from_toml_with_explicit_compat_mode() {
    let mut registry = WebVhostRegistry::new();
    registry.load(vec![
        site("apache-style.example.com", "/var/www/apache-style", false, CompatMode::Apache, PhpMode::default()),
        site("nginx-style.example.com", "/var/www/nginx-style", false, CompatMode::Nginx, PhpMode::default()),
    ]);
    let apache_style = registry.resolve("apache-style.example.com").unwrap();
    assert_eq!(apache_style.compat_mode, CompatMode::Apache);
    let nginx_style = registry.resolve("nginx-style.example.com").unwrap();
    assert_eq!(nginx_style.compat_mode, CompatMode::Nginx);
}

#[test]
fn load_from_toml_with_fastcgi_php_mode() {
    let mut registry = WebVhostRegistry::new();
    registry.load(vec![site(
        "audiocafe.tokyo",
        "/var/www/audiocafe.tokyo",
        true,
        CompatMode::default(),
        PhpMode::FastCgi { fastcgi_addr: "127.0.0.1:9000".to_string() },
    )]);
    let vhost = registry.resolve("audiocafe.tokyo").unwrap();
    assert_eq!(vhost.php_mode, PhpMode::FastCgi { fastcgi_addr: "127.0.0.1:9000".to_string() });
}

#[test]
fn web_vhost_upsert_and_resolve() {
    let mut registry = WebVhostRegistry::new();
    registry.upsert(sample("audiocafe.tokyo"));

    let resolved = registry.resolve("audiocafe.tokyo");
    assert!(resolved.is_some());
    assert_eq!(resolved.unwrap().host, "audiocafe.tokyo");
}

#[test]
fn web_vhost_resolve_strips_port() {
    let mut registry = WebVhostRegistry::new();
    registry.upsert(sample("audiocafe.tokyo"));
    assert!(registry.resolve("audiocafe.tokyo:8080").is_some());
}

#[test]
fn web_vhost_resolve_unknown_is_none() {
    let registry = WebVhostRegistry::new();
    assert!(registry.resolve("unknown.example.com").is_none());
}

#[test]
fn web_vhost_remove_missing_fails() {
    let mut registry = WebVhostRegistry::new();
    let err = registry.remove("nope.example.com").unwrap_err();
    assert!(matches!(err, WebVhostError::NotFound(_)));
}

#[test]
fn web_vhost_load_from_toml_bulk_provisioning() {
    let mut registry = WebVhostRegistry::new();
    let count = registry.load(vec![
        site("audiocafe.tokyo", "F:/open-runo/audiocafe.tokyo", true, CompatMode::default(), PhpMode::default()),
        site("static.example.com", "/var/www/static", false, CompatMode::default(), PhpMode::default()),
    ]);
    assert_eq!(count, 2);
    assert_eq!(registry.len(), 2);
    let audiocafe = registry.resolve("audiocafe.tokyo").unwrap();
    assert!(audiocafe.php_enabled);
    let static_site = registry.resolve("static.example.com").unwrap();
    assert!(!static_site.php_enabled);
}

#[test]
fn set_compat_mode_changes_only_that_field_and_persists() {
    let mut registry = WebVhostRegistry::new();
    registry.upsert(site("audiocafe.tokyo", "/var/www/audiocafe.tokyo", true, CompatMode::default(), PhpMode::default()));

    registry.set_compat_mode("audiocafe.tokyo", CompatMode::Apache).unwrap();
    let updated = registry.resolve("audiocafe.tokyo").unwrap();
    assert_eq!(updated.compat_mode, CompatMode::Apache);
    assert_eq!(PathBuf::from(&updated.docroot), PathBuf::from("/var/www/audiocafe.tokyo"));
    assert!(updated.php_enabled);

    registry.set_compat_mode("audiocafe.tokyo", CompatMode::Nginx).unwrap();
    assert_eq!(registry.resolve("audiocafe.tokyo").unwrap().compat_mode, CompatMode::Nginx);
}

#[test]
fn set_compat_mode_on_unknown_host_returns_not_found() {
    let mut registry = WebVhostRegistry::new();
    let err = registry.set_compat_mode("unknown.example", CompatMode::Apache).unwrap_err();
    assert!(matches!(err, WebVhostError::NotFound(ref h) if h == "unknown.example"));
    assert_eq!(err.message(), "host 'unknown.example' is not registered");
}

#[test]
fn upsert_replaces_the_site_of_the_same_host() {
    let mut registry = WebVhostRegistry::new();
    registry.upsert(sample("a.example"));
    registry.upsert(site("a.example", "/srv/new", false, CompatMode::Apache, PhpMode::default()));
    assert_eq!(registry.len(), 1);
    assert_eq!(registry.resolve("a.example").unwrap().docroot, "/srv/new");
    registry.remove("a.example").unwrap();
    assert!(registry.resolve("a.example").is_none());
}

#[test]
fn list_returns_full_copies_of_every_site() {
    let mut registry = WebVhostRegistry::new();
    let mut full = sample("full.example");
    full.rewrite_rules = vec![RewriteRule {
        pattern: "^/a$".to_string(),
        substitution: "/b".to_string(),
        redirect: true,
        conditions: vec![RewriteCondition { variable: "HTTP_HOST".to_string(), pattern: "x".to_string() }],
    }];
    full.basic_auth = Some(BasicAuthConfig { realm: "r".to_string(), user_file: "/f".to_string() });
    full.tls_cert = Some(TlsCertConfig { cert_path: "/c".to_string(), key_path: None });
    full.access_control = Some(AccessControlConfig { allow: vec!["10.0.0.0/8".to_string()], deny: vec![] });
    full.php_mode = PhpMode::FastCgi { fastcgi_addr: "/run/php.sock".to_string() };
    registry.upsert(full.clone());
    registry.upsert(sample("plain.example"));
    let listed = registry.list();
    assert_eq!(listed.len(), 2);
    assert_eq!(listed[0].host, "full.example");
    assert_eq!(listed[0].rewrite_rules, full.rewrite_rules);
    assert_eq!(listed[0].basic_auth, full.basic_auth);
    assert_eq!(listed[0].access_control, full.access_control);
    assert_eq!(listed[0].php_mode, full.php_mode);
    assert_eq!(listed[1].host, "plain.example");
}
