use open_web_server::custom_dns::{
    build_provider, check_setup_request, conoha_base_domains, credential, is_supported_base_domain,
    join_fqdn, remaining_capacity, resolve_provider, value_domain_base_domain, CustomDomainError,
    CustomDomainRegistry, DnsProviderError, ProviderKind, SetupCustomDnsRequest, SetupRejection,
    setup_rejection_message, MAX_CUSTOM_DOMAINS, register_refusal_reply, setup_step, HttpsAttempt,
    SetupEvent, SetupReply, conoha_credentials,
};

#[test]
fn base_domain_constants_match_owned_domains() {
    assert_eq!(value_domain_base_domain(), "aon.co.jp");
    let conoha = conoha_base_domains();
    assert!(conoha.contains(&"runo.tokyo"));
    assert!(conoha.contains(&"nasa.tokyo"));
    assert!(conoha.contains(&"icpo.tokyo"));
}

#[test]
fn is_supported_base_domain_matches_both_providers() {
    assert!(is_supported_base_domain("aon.co.jp"));
    assert!(is_supported_base_domain("runo.tokyo"));
    assert!(!is_supported_base_domain("example.com"));
}

#[test]
fn build_provider_rejects_unsupported_base_domain() {
    let err = match build_provider("example.com") {
        Ok(_) => panic!("must reject unknown base domain"),
        Err(e) => e,
    };
    assert!(matches!(err, DnsProviderError::UnexpectedResponse(_)));
}

#[test]
fn build_provider_picks_the_provider_of_each_base_domain() {
    assert_eq!(build_provider("aon.co.jp").unwrap(), ProviderKind::ValueDomain);
    assert_eq!(build_provider("nasa.tokyo").unwrap(), ProviderKind::Conoha);
    match build_provider("example.com") {
        Err(DnsProviderError::UnexpectedResponse(m)) => assert_eq!(
            m,
            "'example.com' is not a base domain this server can manage (supported: 'aon.co.jp', [\"runo.tokyo\", \"nasa.tokyo\", \"icpo.tokyo\"])"
        ),
        _ => panic!("expected a refusal"),
    }
}

#[test]
fn resolve_provider_rejects_unsupported_base_domain() {
    let result = resolve_provider("runo.tokyo");
    assert!(result.is_err(), "runo.tokyo has no IPv6 provider yet");
    assert!(matches!(result.err().unwrap(), DnsProviderError::UnexpectedResponse(_)));
}

#[test]
fn resolve_provider_accepts_value_domain() {
    assert_eq!(resolve_provider("aon.co.jp").unwrap(), ProviderKind::ValueDomain);
}

#[test]
fn credential_requires_a_non_blank_value() {
    assert_eq!(credential("KEY", Some("secret")).unwrap(), "secret");
    assert!(matches!(credential("KEY", Some("   ")), Err(DnsProviderError::MissingCredential(k)) if k == "KEY"));
    assert!(matches!(credential("KEY", None), Err(DnsProviderError::MissingCredential(k)) if k == "KEY"));
}

#[test]
fn provider_error_messages() {
    assert_eq!(
        DnsProviderError::MissingCredential("KEY".to_string()).message(),
        "required credential is not configured: KEY"
    );
}

#[test]
fn custom_domain_registry_enforces_capacity_limit() {
    let mut registry = CustomDomainRegistry::new();
    for i in 0..MAX_CUSTOM_DOMAINS {
        registry
            .register("aon.co.jp".to_string(), format!("host{i}"))
            .expect("should register up to the limit");
    }
    assert_eq!(registry.len(), MAX_CUSTOM_DOMAINS);

    let err = registry
        .register("aon.co.jp".to_string(), "one-too-many".to_string())
        .expect_err("21st distinct domain must be rejected");
    assert!(matches!(err, CustomDomainError::CapacityExceeded(n) if n == MAX_CUSTOM_DOMAINS));
    assert_eq!(
        err.message(),
        "capacity exceeded: this instance already has 20 custom domain(s) registered (max 20)"
    );

    // Registering an existing name again is still accepted when full.
    assert_eq!(registry.register("aon.co.jp".to_string(), "host0".to_string()).unwrap(), "host0.aon.co.jp");
    assert_eq!(registry.len(), MAX_CUSTOM_DOMAINS);
}

#[test]
fn custom_domain_registry_register_list_and_remove() {
    let mut registry = CustomDomainRegistry::new();
    let fqdn = registry.register("aon.co.jp".to_string(), "blog".to_string()).unwrap();
    assert_eq!(fqdn, "blog.aon.co.jp");

    registry.record_update_result(&fqdn, true, Some("203.0.113.5".to_string()), "registered".to_string(), 1_700_000_000);

    let list = registry.list();
    assert_eq!(list.len(), 1);
    assert_eq!(list[0].fqdn, "blog.aon.co.jp");
    assert_eq!(list[0].base_domain, "aon.co.jp");
    assert_eq!(list[0].subdomain, "blog");
    let status = list[0].last_update.as_ref().expect("update status recorded");
    assert!(status.ok);
    assert_eq!(status.ip.as_deref(), Some("203.0.113.5"));
    assert_eq!(status.checked_at_unix, 1_700_000_000);

    let (base_domain, subdomain) = registry.remove(&fqdn).unwrap();
    assert_eq!(base_domain, "aon.co.jp");
    assert_eq!(subdomain, "blog");
    assert!(registry.list().is_empty());

    let err = registry.remove(&fqdn).expect_err("already removed");
    assert!(matches!(err, CustomDomainError::NotFound(ref f) if *f == fqdn));
    assert_eq!(err.message(), "custom domain 'blog.aon.co.jp' is not registered");
}

#[test]
fn custom_domain_registry_snapshot_reflects_current_entries() {
    let mut registry = CustomDomainRegistry::new();
    registry.register("aon.co.jp".to_string(), "alpha".to_string()).unwrap();
    registry.register("runo.tokyo".to_string(), "beta".to_string()).unwrap();

    let mut snapshot = registry.snapshot();
    snapshot.sort();
    assert_eq!(
        snapshot,
        vec![
            ("alpha.aon.co.jp".to_string(), "aon.co.jp".to_string(), "alpha".to_string()),
            ("beta.runo.tokyo".to_string(), "runo.tokyo".to_string(), "beta".to_string()),
        ]
    );
}

#[test]
fn custom_domain_list_is_sorted_by_full_name() {
    let mut registry = CustomDomainRegistry::new();
    registry.register("runo.tokyo".to_string(), "zeta".to_string()).unwrap();
    registry.register("aon.co.jp".to_string(), "mid".to_string()).unwrap();
    registry.register("aon.co.jp".to_string(), "alpha".to_string()).unwrap();
    let names: Vec<String> = registry.list().into_iter().map(|s| s.fqdn).collect();
    assert_eq!(names, vec!["alpha.aon.co.jp", "mid.aon.co.jp", "zeta.runo.tokyo"]);
}

#[test]
fn join_fqdn_puts_the_subdomain_first() {
    assert_eq!(join_fqdn("aon.co.jp", "home"), "home.aon.co.jp");
}

#[test]
fn remaining_capacity_saturates_at_zero() {
    assert_eq!(remaining_capacity(0), MAX_CUSTOM_DOMAINS);
    assert_eq!(remaining_capacity(7), MAX_CUSTOM_DOMAINS - 7);
    assert_eq!(remaining_capacity(MAX_CUSTOM_DOMAINS + 3), 0);
}

fn setup(base_domain: &str, subdomain: &str) -> SetupCustomDnsRequest {
    SetupCustomDnsRequest { base_domain: base_domain.to_string(), subdomain: subdomain.to_string(), contact_email: None }
}

#[test]
fn setup_request_checks_fields_then_base_domain() {
    assert_eq!(check_setup_request(&setup("aon.co.jp", "blog")), Ok(()));
    assert_eq!(check_setup_request(&setup("  ", "blog")), Err(SetupRejection::EmptyField));
    assert_eq!(check_setup_request(&setup("aon.co.jp", "")), Err(SetupRejection::EmptyField));
    assert_eq!(check_setup_request(&setup("example.com", "blog")), Err(SetupRejection::UnsupportedBaseDomain));
    assert_eq!(
        setup_rejection_message(SetupRejection::UnsupportedBaseDomain, "example.com"),
        "'example.com' is not a base domain this server is configured to manage (supported: 'aon.co.jp', [\"runo.tokyo\", \"nasa.tokyo\", \"icpo.tokyo\"])"
    );
    assert_eq!(
        setup_rejection_message(SetupRejection::EmptyField, ""),
        "both 'base_domain' and 'subdomain' must be non-empty"
    );
}

#[test]
fn setup_step_answers_each_outside_outcome() {
    let mut reg = CustomDomainRegistry::new();
    let fqdn = reg.register("aon.co.jp".to_string(), "blog".to_string()).unwrap();
    assert_eq!(fqdn, "blog.aon.co.jp");

    match setup_step(&mut reg, &fqdn, SetupEvent::ProviderUnusable("no key".to_string()), 10) {
        SetupReply::Text(st, m) => {
            assert_eq!(st, 503);
            assert_eq!(m, "registered 'blog.aon.co.jp' locally, but the DNS provider is not usable yet: no key");
        }
        other => panic!("unexpected {other:?}"),
    }
    match setup_step(&mut reg, &fqdn, SetupEvent::IpLookupFailed("timeout".to_string()), 11) {
        SetupReply::Text(st, m) => {
            assert_eq!(st, 502);
            assert!(m.ends_with("failed to detect the current public IP: timeout"));
        }
        other => panic!("unexpected {other:?}"),
    }
    match setup_step(
        &mut reg,
        &fqdn,
        SetupEvent::ProviderFailed { ip: "203.0.113.9".to_string(), error: "HTTP 500".to_string() },
        12,
    ) {
        SetupReply::Text(st, m) => {
            assert_eq!(st, 502);
            assert!(m.ends_with("the DNS provider API call failed: HTTP 500"));
        }
        other => panic!("unexpected {other:?}"),
    }
    match setup_step(
        &mut reg,
        &fqdn,
        SetupEvent::Registered {
            fqdn: fqdn.clone(),
            ip: "203.0.113.9".to_string(),
            https: HttpsAttempt::NotRequested,
        },
        13,
    ) {
        SetupReply::Success(s) => {
            assert_eq!(s.fqdn, "blog.aon.co.jp");
            assert_eq!(s.ip, "203.0.113.9");
            assert!(s.verified);
            assert_eq!(s.registered_count, 1);
            assert_eq!(s.remaining_capacity, 19);
            assert!(s.message.starts_with("'blog.aon.co.jp' へAレコードを登録しました。"));
            assert_eq!(s.https_ready, None);
            assert_eq!(s.https_message, None);
        }
        other => panic!("unexpected {other:?}"),
    }
    let list = reg.list();
    assert_eq!(list.len(), 1);

    let (st, m) = register_refusal_reply(&CustomDomainError::CapacityExceeded(20));
    assert_eq!(st, 400);
    assert_eq!(
        m,
        "capacity exceeded: this instance already has 20 custom domain(s) registered (max 20) — 不要なドメインを DELETE /admin/custom-dns/domains/:fqdn で削除してから再度お試しください。"
    );
}

#[test]
fn conoha_credentials_need_a_conoha_domain_and_all_three_values() {
    match conoha_credentials("aon.co.jp", Some("u"), Some("p"), Some("t")) {
        Err(DnsProviderError::MissingCredential(m)) => assert_eq!(
            m,
            "'aon.co.jp' is not a ConoHa DNS-delegated domain known to this provider (supported: [\"runo.tokyo\", \"nasa.tokyo\", \"icpo.tokyo\"])"
        ),
        other => panic!("unexpected {other:?}"),
    }
    match conoha_credentials("runo.tokyo", Some("u"), None, None) {
        Err(DnsProviderError::MissingCredential(m)) => assert_eq!(m, "OPEN_EASY_WEB_CONOHA_API_PASSWORD"),
        other => panic!("unexpected {other:?}"),
    }
    match conoha_credentials("nasa.tokyo", Some("u"), Some("  "), Some("t")) {
        Err(DnsProviderError::MissingCredential(m)) => assert_eq!(m, "OPEN_EASY_WEB_CONOHA_API_USER_ID"),
        other => panic!("unexpected {other:?}"),
    }
    let c = conoha_credentials("icpo.tokyo", Some("u"), Some("p"), Some("t")).unwrap();
    assert_eq!((c.base_domain.as_str(), c.api_user_id.as_str(), c.api_password.as_str(), c.tenant_id.as_str()), ("icpo.tokyo", "u", "p", "t"));
}
