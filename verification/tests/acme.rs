use open_web_server::acme::{
    base64url_encode, challenge_token, http01_challenge, http01_key_authorization, jwk_thumbprint,
    poll_step, AcmeAuthorization, AcmeChallenge, ChallengeStore, PollStep,
};

fn sample_public_key(first: u8) -> Vec<u8> {
    let mut key = vec![4u8];
    key.extend((0..64u8).map(|i| first + i));
    key
}

#[test]
fn base64url_has_no_padding_and_uses_url_safe_alphabet() {
    let encoded = base64url_encode(b"any carnal pleasure.");
    assert_eq!(encoded, "YW55IGNhcm5hbCBwbGVhc3VyZS4");
    assert!(!encoded.contains('='));
    assert!(!encoded.contains('+'));
    assert!(!encoded.contains('/'));
}

#[test]
fn base64url_uses_dash_and_underscore() {
    assert_eq!(base64url_encode(&[0xfb, 0xff]), "-_8");
    assert_eq!(base64url_encode(b""), "");
    assert_eq!(base64url_encode(b"f"), "Zg");
    assert_eq!(base64url_encode(b"fo"), "Zm8");
    assert_eq!(base64url_encode(b"foo"), "Zm9v");
}

#[test]
fn thumbprint_is_stable_for_the_same_key() {
    let key = sample_public_key(1);
    assert_eq!(jwk_thumbprint(&key), jwk_thumbprint(&key));
}

#[test]
fn thumbprint_matches_rfc7638_digest_of_the_canonical_jwk() {
    // SHA-256 of {"crv":"P-256","kty":"EC","x":"AQID...HyA","y":"ISIj...P0A"}.
    assert_eq!(jwk_thumbprint(&sample_public_key(1)), "t1ZI8tOt77KZ9YepYcUiqtqXcpIYInMJhkFb6casAFo");
}

#[test]
fn different_keys_have_different_thumbprints() {
    let a = jwk_thumbprint(&sample_public_key(1));
    let b = jwk_thumbprint(&sample_public_key(2));
    assert_eq!(b, "2InAmJ9_GLDshVWb2IijrBSuIxZ7J3bXPC_H_wRIwBY");
    assert_ne!(a, b);
}

#[test]
fn http01_key_authorization_is_token_dot_thumbprint() {
    let thumbprint = jwk_thumbprint(&sample_public_key(1));
    let key_auth = http01_key_authorization("abc123", &thumbprint);
    assert_eq!(key_auth, format!("abc123.{}", thumbprint));
}

#[test]
fn extracts_token_from_well_known_path() {
    assert_eq!(challenge_token("/.well-known/acme-challenge/abc123"), Some("abc123".to_string()));
}

#[test]
fn rejects_empty_token_and_unrelated_paths() {
    assert_eq!(challenge_token("/.well-known/acme-challenge/"), None);
    assert_eq!(challenge_token("/healthz"), None);
}

#[test]
fn publish_get_remove_round_trip() {
    let mut store = ChallengeStore::new();
    assert_eq!(store.get("token-a"), None);
    store.publish("token-a".to_string(), "key-auth-a".to_string());
    assert_eq!(store.get("token-a"), Some("key-auth-a".to_string()));
    store.remove("token-a");
    assert_eq!(store.get("token-a"), None);
    // Removing again (already absent) must not panic -- idempotent.
    store.remove("token-a");
}

#[test]
fn challenge_response_serves_only_published_tokens() {
    let mut store = ChallengeStore::new();
    store.publish("tok".to_string(), "tok.thumb".to_string());
    assert_eq!(store.challenge_response("/.well-known/acme-challenge/tok"), Some("tok.thumb".to_string()));
    assert_eq!(store.challenge_response("/.well-known/acme-challenge/other"), None);
    assert_eq!(store.challenge_response("/.well-known/acme-challenge/"), None);
    assert_eq!(store.challenge_response("/tok"), None);
}

#[test]
fn picks_the_first_http01_challenge() {
    let challenge = |kind: &str, token: &str| AcmeChallenge {
        challenge_type: kind.to_string(),
        url: format!("https://ca.example/chall/{token}"),
        token: token.to_string(),
        status: "pending".to_string(),
    };
    let auth = AcmeAuthorization {
        status: "pending".to_string(),
        challenges: vec![challenge("dns-01", "a"), challenge("http-01", "b"), challenge("http-01", "c")],
    };
    assert_eq!(http01_challenge(&auth).map(|c| c.token.clone()), Some("b".to_string()));
    let none = AcmeAuthorization { status: "pending".to_string(), challenges: vec![challenge("dns-01", "a")] };
    assert!(http01_challenge(&none).is_none());
}

#[test]
fn poll_step_follows_the_authorization_status() {
    assert_eq!(poll_step("valid"), PollStep::Valid);
    assert_eq!(poll_step("pending"), PollStep::Pending);
    assert_eq!(poll_step("invalid"), PollStep::Failed);
    assert_eq!(poll_step(""), PollStep::Failed);
}
