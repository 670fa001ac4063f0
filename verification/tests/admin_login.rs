use open_web_server::admin_login::{
    confirm, enroll, request_otp, request_otp_message, verify_login, verify_suspension_override, ConfirmRequest,
    EnrollRefusal, EnrollRequest, RequestOtpRequest, SuspensionOverrideRequest, VerifyLoginRequest,
    LOGIN_KEY_VALIDITY_HOURS,
};
use open_web_server::keyring::{KeyLookup, KeyRegistry};
use open_web_server::two_factor::{totp_at, TwoFactorStore};

fn code(secret: &[u8], t: i64) -> String {
    format!("{:06}", totp_at(secret, t))
}

#[test]
fn enrollment_needs_an_owner() {
    let mut store = TwoFactorStore::new();
    let req = EnrollRequest { owner: " ".to_string(), email: None, phone_number: None };
    assert!(matches!(enroll(&mut store, req), Err(EnrollRefusal::EmptyOwner)));
}

#[test]
fn full_login_flow_issues_a_twelve_hour_admin_key() {
    let mut store = TwoFactorStore::new();
    let mut keys = KeyRegistry::new();
    let t = 1_700_000_000;
    let resp = enroll(
        &mut store,
        EnrollRequest { owner: "root".to_string(), email: Some("root@example.test".to_string()), phone_number: None },
    )
    .unwrap();
    assert_eq!(resp.owner, "root");
    assert!(resp.otpauth_url.starts_with("otpauth://totp/open-web-server:root?secret="));
    let secret = store.enrollment("root").unwrap().secret.clone();

    assert!(confirm(&mut store, &ConfirmRequest { owner: "root".to_string(), code: code(&secret, t) }, t));

    assert_eq!(request_otp(&mut store, &RequestOtpRequest { owner: "nobody".to_string() }, true, t), None);
    assert_eq!(request_otp(&mut store, &RequestOtpRequest { owner: "root".to_string() }, false, t), None);
    let (address, email_code) =
        request_otp(&mut store, &RequestOtpRequest { owner: "root".to_string() }, true, t).unwrap();
    assert_eq!(address, "root@example.test");
    assert_eq!(request_otp_message(), "if this owner has 2FA enrolled, an OTP email has been sent");

    let bad = VerifyLoginRequest { owner: "root".to_string(), email_otp: "x".to_string(), totp_code: code(&secret, t) };
    assert!(verify_login(&mut store, &mut keys, bad, t).is_none());
    assert_eq!(keys.active_key_count(), 0);

    let good = VerifyLoginRequest { owner: "root".to_string(), email_otp: email_code, totp_code: code(&secret, t) };
    let login = verify_login(&mut store, &mut keys, good, t).unwrap();
    assert_eq!(login.owner, "root");
    assert_eq!(login.expires_in_hours, LOGIN_KEY_VALIDITY_HOURS);
    let t_ms = t * 1000;
    match keys.lookup(&login.key, t_ms + 12 * 3600 * 1000 - 1) {
        KeyLookup::Active { owner, roles } => {
            assert_eq!(owner, "root");
            assert_eq!(roles, vec!["admin".to_string()]);
        }
        other => panic!("expected an active key, got {other:?}"),
    }
    assert_eq!(keys.lookup(&login.key, t_ms + 12 * 3600 * 1000), KeyLookup::Rejected);
}

#[test]
fn suspension_override_needs_a_confirmed_enrollment() {
    let mut store = TwoFactorStore::new();
    let t = 1_700_000_000;
    store.enroll_with_secret("ops", None, None, b"a-fixed-test-secret-".to_vec());
    let req = SuspensionOverrideRequest { owner: "ops".to_string(), totp_code: code(b"a-fixed-test-secret-", t) };
    assert!(!verify_suspension_override(&mut store, &req, t));
    assert!(confirm(&mut store, &ConfirmRequest { owner: "ops".to_string(), code: code(b"a-fixed-test-secret-", t) }, t));
    assert!(verify_suspension_override(&mut store, &req, t));
    assert!(store.has_valid_override("ops", t + 899));
    assert!(!store.has_valid_override("ops", t + 900));
}
