use open_web_server::oauth::{github_credentials, github_user_info, AccountRegistry, AuthProviderError, OAuthUserInfo};

#[test]
fn mock_login_flow_produces_stable_unified_account_id() {
    let info = OAuthUserInfo {
        provider: "github".to_string(),
        provider_user_id: "42".to_string(),
        login: "octocat".to_string(),
        email: Some("octocat@example.com".to_string()),
    };
    assert_eq!(info.unified_account_id(), "github:42");
    let from_api = github_user_info(42, "octocat".to_string(), None);
    assert_eq!(from_api.unified_account_id(), "github:42");
}

#[test]
fn account_registry_normalizes_repeated_logins_from_different_sites() {
    let mut registry = AccountRegistry::new();
    let info_from_aon = OAuthUserInfo { provider: "github".to_string(), provider_user_id: "42".to_string(), login: "octocat".to_string(), email: None };
    let info_from_runo = OAuthUserInfo { provider: "github".to_string(), provider_user_id: "42".to_string(), login: "octocat".to_string(), email: Some("new@example.com".to_string()) };

    let key1 = registry.upsert_login(info_from_aon);
    let key2 = registry.upsert_login(info_from_runo);

    assert_eq!(key1, key2, "logging in from aon.co.jp and runo.tokyo must resolve to the same account");
    assert_eq!(registry.len(), 1, "must not create a duplicate account row");
    let stored = registry.get(&key1).unwrap();
    assert_eq!(stored.email.as_deref(), Some("new@example.com"), "latest login info should win");
}

#[test]
fn github_provider_from_env_reports_missing_credential_honestly() {
    let err = github_credentials(None, None).expect_err("must fail without an OAuth App configured");
    assert!(matches!(err, AuthProviderError::MissingCredential(ref n) if n == "OPEN_EASY_WEB_GITHUB_CLIENT_ID"));
    let err = github_credentials(Some("id"), None).unwrap_err();
    assert!(matches!(err, AuthProviderError::MissingCredential(ref n) if n == "OPEN_EASY_WEB_GITHUB_CLIENT_SECRET"));
    let err = github_credentials(Some("id"), Some("  ")).unwrap_err();
    assert!(matches!(err, AuthProviderError::MissingCredential(ref n) if n == "OPEN_EASY_WEB_GITHUB_CLIENT_ID"));
    assert_eq!(github_credentials(Some("id"), Some("secret")).unwrap(), ("id".to_string(), "secret".to_string()));
}

#[test]
fn auth_error_messages() {
    assert_eq!(
        AuthProviderError::MissingCredential("OPEN_EASY_WEB_GITHUB_CLIENT_ID".to_string()).message(),
        "required credential is not configured: OPEN_EASY_WEB_GITHUB_CLIENT_ID"
    );
    assert_eq!(AuthProviderError::TokenExchangeFailed("bad code".to_string()).message(), "OAuth token exchange failed: bad code");
}
