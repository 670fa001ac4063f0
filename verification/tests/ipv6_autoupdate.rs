use open_web_server::custom_dns::value_domain_base_domain;
use open_web_server::ipv6_autoupdate::{
    Ipv6AutoUpdateError, Ipv6AutoUpdateKey, Ipv6AutoUpdateRegistry, MAX_IPV6_AUTO_UPDATE_ENTRIES,
};

#[test]
fn registry_rejects_unsupported_base_domain() {
    let mut registry = Ipv6AutoUpdateRegistry::new();
    let err = registry
        .register("runo.tokyo".to_string(), "home".to_string())
        .expect_err("runo.tokyo is not yet AAAA-capable in this build");
    assert!(matches!(err, Ipv6AutoUpdateError::UnsupportedBaseDomain(ref d) if d == "runo.tokyo"));
    assert_eq!(
        err.message(),
        "base domain 'runo.tokyo' is not supported (this build only supports Value-Domain-managed 'aon.co.jp' for AAAA auto-update)"
    );
    assert_eq!(registry.len(), 0);
}

#[test]
fn registry_registers_lists_and_removes() {
    let mut registry = Ipv6AutoUpdateRegistry::new();
    let key = registry
        .register(value_domain_base_domain().to_string(), "home".to_string())
        .expect("aon.co.jp is supported");
    assert_eq!(key.fqdn(), "home.aon.co.jp");
    assert_eq!(registry.len(), 1);

    let listed = registry.list();
    assert_eq!(listed.len(), 1);
    assert_eq!(listed[0].0.fqdn(), "home.aon.co.jp");
    assert!(listed[0].1.is_none(), "no update attempt has happened yet");

    registry.remove(value_domain_base_domain(), "home").unwrap();
    assert_eq!(registry.len(), 0);

    let err = registry.remove(value_domain_base_domain(), "home").expect_err("already removed");
    assert!(matches!(err, Ipv6AutoUpdateError::NotFound(_, ref sub) if sub == "home"));
    assert_eq!(err.message(), "entry for domain='aon.co.jp' subdomain='home' is not registered");
}

#[test]
fn registry_enforces_capacity_limit() {
    let mut registry = Ipv6AutoUpdateRegistry::new();
    for i in 0..MAX_IPV6_AUTO_UPDATE_ENTRIES {
        registry
            .register(value_domain_base_domain().to_string(), format!("host{i}"))
            .expect("should register up to the limit");
    }
    assert_eq!(registry.len(), MAX_IPV6_AUTO_UPDATE_ENTRIES);

    let err = registry
        .register(value_domain_base_domain().to_string(), "one-too-many".to_string())
        .expect_err("one entry beyond the limit must be rejected");
    assert!(matches!(err, Ipv6AutoUpdateError::CapacityExceeded(n) if n == MAX_IPV6_AUTO_UPDATE_ENTRIES));
    assert_eq!(
        err.message(),
        "capacity exceeded: this instance already has 20 IPv6 auto-update entry(ies) registered (max 20)"
    );
}

#[test]
fn record_update_result_is_reflected_in_list() {
    let mut registry = Ipv6AutoUpdateRegistry::new();
    let key = registry.register(value_domain_base_domain().to_string(), "home".to_string()).unwrap();
    registry.record_update_result(&key, true, Some("2001:db8::1".to_string()), String::new(), 1_700_000_123);

    let listed = registry.list();
    let status = listed[0].1.as_ref().expect("update result should now be present");
    assert!(status.ok);
    assert_eq!(status.ipv6.as_deref(), Some("2001:db8::1"));
    assert_eq!(status.checked_at_unix, 1_700_000_123);
}

#[test]
fn removing_from_another_base_domain_is_not_found() {
    let mut registry = Ipv6AutoUpdateRegistry::new();
    registry.register("aon.co.jp".to_string(), "x".to_string()).unwrap();
    // "x.aon" under "co.jp" spells the same full name, but is a different entry.
    assert!(matches!(registry.remove("co.jp", "x.aon"), Err(Ipv6AutoUpdateError::NotFound(_, _))));
    assert_eq!(registry.len(), 1);
}

#[test]
fn list_is_sorted_and_snapshot_keeps_registration_order() {
    let mut registry = Ipv6AutoUpdateRegistry::new();
    registry.register("aon.co.jp".to_string(), "web".to_string()).unwrap();
    registry.register("aon.co.jp".to_string(), "api".to_string()).unwrap();
    let names: Vec<String> = registry.list().iter().map(|(k, _)| k.fqdn()).collect();
    assert_eq!(names, vec!["api.aon.co.jp", "web.aon.co.jp"]);
    let snap = registry.snapshot();
    assert_eq!(
        snap,
        vec![
            Ipv6AutoUpdateKey { base_domain: "aon.co.jp".to_string(), subdomain: "web".to_string() },
            Ipv6AutoUpdateKey { base_domain: "aon.co.jp".to_string(), subdomain: "api".to_string() },
        ]
    );
}

use open_web_server::ipv6_autoupdate::{setup_ipv6_auto_update, Ipv6SetupRefusal, SetupIpv6AutoUpdateRequest};

#[test]
fn setup_request_checks_fields_before_registering() {
    let mut registry = Ipv6AutoUpdateRegistry::new();
    let req = |d: &str, s: &str| SetupIpv6AutoUpdateRequest { domain: d.to_string(), subdomain: s.to_string() };
    assert!(matches!(setup_ipv6_auto_update(&mut registry, req(" ", "home")), Err(Ipv6SetupRefusal::EmptyField)));
    assert!(matches!(
        setup_ipv6_auto_update(&mut registry, req("runo.tokyo", "home")),
        Err(Ipv6SetupRefusal::Registry(Ipv6AutoUpdateError::UnsupportedBaseDomain(_)))
    ));
    let key = setup_ipv6_auto_update(&mut registry, req("aon.co.jp", "home")).unwrap();
    assert_eq!(key.fqdn(), "home.aon.co.jp");
    assert_eq!(registry.len(), 1);
}
