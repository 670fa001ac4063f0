use open_web_server::two_factor::{
    base32_encode, constant_time_eq, format_six_digits, hotp, totp_at, totp_matches, TwoFactorStore, TOTP_STEP_SECS,
};

fn now() -> i64 {
    chrono::Utc::now().timestamp()
}

fn code_at(secret: &[u8], t: i64) -> String {
    format!("{:06}", totp_at(secret, t))
}

#[test]
fn base32_encode_matches_known_vector() {
    assert_eq!(base32_encode(b"foobar"), "MZXW6YTBOI");
}

#[test]
fn base32_encode_rfc4648_vectors_without_padding() {
    assert_eq!(base32_encode(b""), "");
    assert_eq!(base32_encode(b"f"), "MY");
    assert_eq!(base32_encode(b"fo"), "MZXQ");
    assert_eq!(base32_encode(b"foo"), "MZXW6");
    assert_eq!(base32_encode(b"foob"), "MZXW6YQ");
    assert_eq!(base32_encode(b"fooba"), "MZXW6YTB");
}

#[test]
fn hotp_matches_rfc4226_test_vectors() {
    let secret = b"12345678901234567890";
    let expected = [755224u32, 287082, 359152, 969429, 338314, 254676, 287922, 162583, 399871, 520489];
    for (counter, want) in expected.iter().enumerate() {
        assert_eq!(hotp(secret, counter as u64), *want);
    }
}

#[test]
fn totp_matches_rfc6238_sha1_vector() {
    // RFC 6238 appendix B, T = 59: 94287082 (8 digits) -> 287082 with 6.
    assert_eq!(totp_at(b"12345678901234567890", 59), 287082);
    assert_eq!(totp_at(b"12345678901234567890", 1111111109), 81804);
    assert_eq!(format_six_digits(81804), "081804");
}

#[test]
fn enroll_then_confirm_with_the_real_totp_code_succeeds() {
    let mut store = TwoFactorStore::new();
    let now = now();
    let resp = store.enroll("alice", None, None).expect("system randomness");
    assert!(resp.otpauth_url.contains("alice"));
    assert!(resp.qr_svg.is_some(), "QR SVG should be generated");
    assert!(resp.qr_svg.as_ref().unwrap().contains("<svg"));

    let secret = store.enrollment("alice").unwrap().secret.clone();
    assert_eq!(resp.secret_base32, base32_encode(&secret));
    let real_code = code_at(&secret, now);

    assert!(!store.has_confirmed_enrollment("alice"));
    assert!(store.confirm("alice", &real_code, now));
    assert!(store.has_confirmed_enrollment("alice"));
}

#[test]
fn confirm_with_wrong_code_fails_and_does_not_confirm() {
    let mut store = TwoFactorStore::new();
    store.enroll_with_secret("bob", None, None, b"a-fixed-test-secret-".to_vec());
    let now = now();
    let wrong = format_six_digits((totp_at(b"a-fixed-test-secret-", now) + 1) % 1_000_000);
    let wrong = if totp_matches(b"a-fixed-test-secret-", &wrong, now) { "abcdef".to_string() } else { wrong };
    assert!(!store.confirm("bob", &wrong, now));
    assert!(!store.has_confirmed_enrollment("bob"));
}

#[test]
fn verify_for_override_requires_prior_confirmation() {
    let mut store = TwoFactorStore::new();
    let now = now();
    store.enroll("carol", None, None).unwrap();
    let secret = store.enrollment("carol").unwrap().secret.clone();
    let real_code = code_at(&secret, now);

    assert!(!store.verify_for_override("carol", &real_code, now));
    assert!(!store.has_valid_override("carol", now));

    store.confirm("carol", &real_code, now);
    assert!(store.verify_for_override("carol", &real_code, now));
    assert!(store.has_valid_override("carol", now));
}

#[test]
fn override_expires_after_validity_window() {
    let mut store = TwoFactorStore::new();
    let now = now();
    store.enroll("dave", None, None).unwrap();
    let secret = store.enrollment("dave").unwrap().secret.clone();
    let real_code = code_at(&secret, now);
    store.confirm("dave", &real_code, now);
    assert!(store.verify_for_override("dave", &real_code, now));

    assert!(store.has_valid_override("dave", now + 10 * 60));
    assert!(!store.has_valid_override("dave", now + 16 * 60));
}

#[test]
fn totp_tolerates_one_step_of_clock_skew_but_not_two() {
    let secret = b"a-fixed-test-secret-".to_vec();
    let now = now();
    let code_one_step_ago = code_at(&secret, now - TOTP_STEP_SECS);
    let code_two_steps_ago = code_at(&secret, now - 2 * TOTP_STEP_SECS);
    assert!(totp_matches(&secret, &code_one_step_ago, now));
    // Two steps back is only accepted when it happens to equal a code in the window.
    let in_window = [-1i64, 0, 1].iter().any(|d| code_at(&secret, now + d * TOTP_STEP_SECS) == code_two_steps_ago);
    assert_eq!(totp_matches(&secret, &code_two_steps_ago, now), in_window);
}

#[test]
fn verify_login_requires_both_email_otp_and_totp_to_succeed() {
    let mut store = TwoFactorStore::new();
    let now = now();
    store.enroll("erin", Some("erin@example.test".to_string()), None).unwrap();
    let secret = store.enrollment("erin").unwrap().secret.clone();
    let real_totp = code_at(&secret, now);
    store.confirm("erin", &real_totp, now);

    let real_email_otp = store.issue_email_otp("erin", now);
    let wrong_email = if real_email_otp == "000000" { "111111" } else { "000000" };
    let wrong_totp = if totp_matches(&secret, "000000", now) { "abcdef" } else { "000000" };

    assert!(!store.verify_login("erin", wrong_email, &real_totp, now));
    assert!(!store.verify_login("erin", &real_email_otp, wrong_totp, now));
    assert!(store.verify_login("erin", &real_email_otp, &real_totp, now));
    assert!(!store.verify_login("erin", &real_email_otp, &real_totp, now));
}

#[test]
fn verify_login_fails_without_confirmed_totp_enrollment() {
    let mut store = TwoFactorStore::new();
    let now = now();
    store.enroll("frank", Some("frank@example.test".to_string()), None).unwrap();
    let email_otp = store.issue_email_otp("frank", now);
    let secret = store.enrollment("frank").unwrap().secret.clone();
    let real_totp = code_at(&secret, now);
    assert!(!store.verify_login("frank", &email_otp, &real_totp, now), "unconfirmed TOTP enrollment must not authorize login");
}

#[test]
fn email_code_expires_after_five_minutes() {
    let mut store = TwoFactorStore::new();
    let t0 = 1_700_000_000;
    store.enroll_with_secret("gina", Some("g@example.test".to_string()), None, b"a-fixed-test-secret-".to_vec());
    let totp = code_at(b"a-fixed-test-secret-", t0);
    assert!(store.confirm("gina", &totp, t0));
    let email_code = store.issue_email_otp("gina", t0);
    assert_eq!(email_code.len(), 6);
    let late = t0 + 301;
    let late_totp = code_at(b"a-fixed-test-secret-", late);
    assert!(!store.verify_login("gina", &email_code, &late_totp, late));
}

#[test]
fn email_is_known_only_for_enrolled_owners() {
    let mut store = TwoFactorStore::new();
    assert_eq!(store.email_for("nobody"), None);
    store.enroll_with_secret("hal", Some("hal@example.test".to_string()), None, vec![1, 2, 3]);
    assert_eq!(store.email_for("hal"), Some("hal@example.test".to_string()));
}

#[test]
fn constant_time_eq_is_plain_equality() {
    assert!(constant_time_eq("123456", "123456"));
    assert!(!constant_time_eq("123456", "123457"));
    assert!(!constant_time_eq("12345", "123456"));
}

#[test]
fn constant_time_eq_compares_full_lengths() {
    let nuls = "\0".repeat(256);
    assert!(!constant_time_eq("", &nuls));
    assert!(!constant_time_eq("123456", &format!("123456{nuls}")));
    assert!(constant_time_eq(&nuls, &"\0".repeat(256)));
}
