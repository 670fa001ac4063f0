use open_web_server::keyring::{hash_key, to_hex, KeyLookup, KeyRegistry};

fn now_ms() -> i64 {
    chrono::Utc::now().timestamp_millis()
}

#[test]
fn empty_registry_stays_permissive() {
    let mut g = KeyRegistry::new();
    assert_eq!(g.lookup("anything", now_ms()), KeyLookup::RegistryEmpty);
}

#[test]
fn issue_verify_roundtrip_with_roles() {
    let mut g = KeyRegistry::new();
    let key = g.issue("alice", vec!["developer".to_string()], None, now_ms());
    assert!(key.starts_with("ows_"));
    assert_eq!(key.len(), 68);

    match g.lookup(&key, now_ms()) {
        KeyLookup::Active { owner, roles } => {
            assert_eq!(owner, "alice");
            assert_eq!(roles, vec!["developer".to_string()]);
        }
        other => panic!("expected Active, got {other:?}"),
    }

    assert_eq!(g.lookup("wrong-key", now_ms()), KeyLookup::Rejected);
}

#[test]
fn revoke_owner_kills_all_their_keys() {
    let mut g = KeyRegistry::new();
    let k1 = g.issue("bob", vec![], None, now_ms());
    let k2 = g.issue("bob", vec![], None, now_ms());
    let alice = g.issue("alice", vec![], None, now_ms());

    assert_eq!(g.revoke_owner("bob"), 2);
    assert_eq!(g.lookup(&k1, now_ms()), KeyLookup::Rejected);
    assert_eq!(g.lookup(&k2, now_ms()), KeyLookup::Rejected);
    assert!(matches!(g.lookup(&alice, now_ms()), KeyLookup::Active { .. }));
    assert_eq!(g.revoke_owner("bob"), 0);
}

#[test]
fn expired_keys_auto_clean() {
    let mut g = KeyRegistry::new();
    let key = g.issue("carol", vec![], Some(now_ms() - 1000), now_ms());
    assert_eq!(g.lookup(&key, now_ms()), KeyLookup::Rejected);
    assert_eq!(g.active_key_count(), 0);
}

#[test]
fn key_expires_exactly_at_its_expiry_time() {
    let mut g = KeyRegistry::new();
    let t = 1_700_000_000_000;
    let key = g.issue("dora", vec![], Some(t + 5000), t);
    assert!(matches!(g.lookup(&key, t + 4999), KeyLookup::Active { .. }));
    assert_eq!(g.lookup(&key, t + 5000), KeyLookup::Rejected);
}

#[test]
fn active_key_count_excludes_revoked_keys() {
    let mut g = KeyRegistry::new();
    g.issue("erin", vec![], None, now_ms());
    g.issue("frank", vec![], None, now_ms());
    assert_eq!(g.active_key_count(), 2);
    g.revoke_owner("erin");
    assert_eq!(g.active_key_count(), 1);
}

#[test]
fn stored_form_is_hex_sha256() {
    assert_eq!(hash_key("abc"), "ba7816bf8f01cfea414140de5dae2223b00361a396177a9cb410ff61f20015ad");
    assert_eq!(hash_key(""), "e3b0c44298fc1c149afbf4c8996fb92427ae41e4649b934ca495991b7852b855");
    assert_eq!(to_hex(&[0x00, 0xff, 0x1a]), "00ff1a");
}

use open_web_server::keyring::{issue_key, key_status, revoke_owner_request, IssueKeyRequest, RevokeOwnerRequest};

#[test]
fn issue_key_request_refuses_a_blank_owner() {
    let mut g = KeyRegistry::new();
    let err = issue_key(&mut g, IssueKeyRequest { owner: "  ".to_string(), roles: vec![], expires_in_secs: None }, 0)
        .unwrap_err();
    assert_eq!(err, "owner must not be empty");
    assert_eq!(key_status(&g).active_key_count, 0);
}

#[test]
fn issue_key_request_sets_the_expiry_in_seconds() {
    let mut g = KeyRegistry::new();
    let t = 1_700_000_000_000;
    let resp = issue_key(
        &mut g,
        IssueKeyRequest { owner: "ops".to_string(), roles: vec!["admin".to_string()], expires_in_secs: Some(60) },
        t,
    )
    .unwrap();
    assert_eq!(resp.owner, "ops");
    assert_eq!(resp.roles, vec!["admin".to_string()]);
    assert!(matches!(g.lookup(&resp.key, t + 59_999), KeyLookup::Active { .. }));
    assert_eq!(g.lookup(&resp.key, t + 60_000), KeyLookup::Rejected);
}

#[test]
fn revoke_request_reports_the_count() {
    let mut g = KeyRegistry::new();
    g.issue("zed", vec![], None, 0);
    let resp = revoke_owner_request(&mut g, RevokeOwnerRequest { owner: "zed".to_string() });
    assert_eq!(resp.owner, "zed");
    assert_eq!(resp.revoked_count, 1);
    assert_eq!(key_status(&g).active_key_count, 0);
}

#[test]
fn issued_keys_are_ows_and_64_lowercase_hex_digits() {
    let mut reg = KeyRegistry::new();
    let key = reg.issue("owner", vec![], None, 0);
    assert_eq!(key.len(), 68);
    assert!(key.starts_with("ows_"));
    assert!(key[4..].chars().all(|c| c.is_ascii_digit() || ('a'..='f').contains(&c)));
}
