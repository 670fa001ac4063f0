use open_web_server::admin_api::{admin_auth, key_grants_admin_access, static_admin_auth_ok, AdminAuth, KeyCheck};

#[test]
fn roles_granting_full_access() {
    assert!(key_grants_admin_access(&[]));
    assert!(key_grants_admin_access(&["viewer".to_string(), "admin".to_string()]));
    assert!(!key_grants_admin_access(&["developer".to_string()]));
}

#[test]
fn shared_secret_check() {
    assert!(static_admin_auth_ok(None, None));
    assert!(static_admin_auth_ok(Some("s3cret"), Some("s3cret")));
    assert!(!static_admin_auth_ok(Some("s3cret"), Some("guess")));
    assert!(!static_admin_auth_ok(Some("s3cret"), None));
}

#[test]
fn allowlist_is_checked_before_anything_else() {
    assert_eq!(admin_auth(Some(false), &KeyCheck::AdminKey, true), AdminAuth::ForbiddenAddress);
    assert_eq!(admin_auth(Some(true), &KeyCheck::AdminKey, false), AdminAuth::Allowed);
    assert_eq!(admin_auth(None, &KeyCheck::AdminKey, false), AdminAuth::Allowed);
}

#[test]
fn suspended_keys_need_a_second_factor_override() {
    assert_eq!(admin_auth(None, &KeyCheck::Suspended { override_valid: false }, true), AdminAuth::Suspended);
    assert_eq!(admin_auth(None, &KeyCheck::Suspended { override_valid: true }, false), AdminAuth::Allowed);
}

#[test]
fn other_keys_fall_back_to_the_shared_secret() {
    assert_eq!(admin_auth(None, &KeyCheck::RestrictedKey, true), AdminAuth::Allowed);
    assert_eq!(admin_auth(None, &KeyCheck::NoKey, false), AdminAuth::Unauthorized);
}

use open_web_server::admin_api::key_check;
use open_web_server::keyring::{key_decision, KeyDecision, KeyLookup};

#[test]
fn key_verification_feeds_the_administration_check() {
    let active = KeyLookup::Active { owner: "dev".to_string(), roles: vec!["developer".to_string()] };
    assert_eq!(key_decision(active.clone(), true), KeyDecision::Suspended);
    let d = key_decision(active, false);
    assert_eq!(d, KeyDecision::Valid { owner: "dev".to_string(), roles: vec!["developer".to_string()] });
    assert_eq!(key_check(&d, false), KeyCheck::RestrictedKey);
    assert_eq!(key_decision(KeyLookup::RegistryEmpty, true), KeyDecision::RegistryEmpty);
    assert_eq!(key_decision(KeyLookup::Rejected, false), KeyDecision::Rejected);
    let admin = KeyDecision::Valid { owner: "root".to_string(), roles: vec!["admin".to_string()] };
    assert_eq!(key_check(&admin, false), KeyCheck::AdminKey);
    assert_eq!(key_check(&KeyDecision::Suspended, true), KeyCheck::Suspended { override_valid: true });
    assert_eq!(key_check(&KeyDecision::Rejected, true), KeyCheck::NoKey);
}
