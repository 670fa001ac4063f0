//! The administrator sign-in flow: TOTP enrollment, and a login that needs
//! both an e-mailed one-time code and a TOTP code before a short-lived
//! administrator key is issued.
//!
//! Reading request bodies, sending the e-mail and answering over HTTP are
//! the program's part; these functions take the decoded bodies and return
//! what is answered.

use vstd::prelude::*;
use crate::keyring::{KeyRegistry, hash_spec};
use crate::keyed::value_of;
use crate::text::{push_str, trim};
use crate::two_factor::{
    TwoFactorStore, base32_spec, confirmed_totp_ok, email_otp_ok, otpauth_url_spec, qr_svg_of,
    totp_matches_spec, TotpEnrollment, EMAIL_OTP_VALIDITY_SECS, OVERRIDE_VALIDITY_SECS,
};

verus! {

/// Lifetime of a key issued by a successful login, in hours.
pub const LOGIN_KEY_VALIDITY_HOURS: i64 = 12;

/// Lifetime of a login key in milliseconds.
pub open spec fn login_key_validity_ms() -> int {
    LOGIN_KEY_VALIDITY_HOURS * 3600 * 1000
}

/// Body of a TOTP enrollment request.
#[derive(Debug, Clone)]
pub struct EnrollRequest {
    pub owner: String,
    pub email: Option<String>,
    pub phone_number: Option<String>,
}

/// What an enrollment shows the user once: the secret, the `otpauth://`
/// URL and its QR code.
#[derive(Debug, Clone)]
pub struct EnrollResponse {
    pub owner: String,
    pub secret_base32: String,
    pub otpauth_url: String,
    pub qr_svg: Option<String>,
}

/// Body of a request confirming an enrollment with its first code.
#[derive(Debug, Clone)]
pub struct ConfirmRequest {
    pub owner: String,
    pub code: String,
}

/// Body of a request for an e-mailed login code.
#[derive(Debug, Clone)]
pub struct RequestOtpRequest {
    pub owner: String,
}

/// Body of a request lifting a key suspension with a TOTP code.
#[derive(Debug, Clone)]
pub struct SuspensionOverrideRequest {
    pub owner: String,
    pub totp_code: String,
}

/// Body of a login request.
#[derive(Debug, Clone)]
pub struct VerifyLoginRequest {
    pub owner: String,
    pub email_otp: String,
    pub totp_code: String,
}

/// Answer to a successful login: the new key, shown this once only.
#[derive(Debug, Clone)]
pub struct VerifyLoginResponse {
    pub key: String,
    pub owner: String,
    pub expires_in_hours: i64,
}

/// Why an enrollment was not made.
#[derive(Debug, Clone, Copy, PartialEq, Eq, Structural)]
pub enum EnrollRefusal {
    /// The owner is blank (answered with 400).
    EmptyOwner,
    /// The system source of randomness failed.
    NoRandomness,
}

/// Enrolls the requesting owner for TOTP: refused when the owner is blank;
/// otherwise a fresh 20-byte secret is recorded, unconfirmed, unless the
/// source of randomness fails.
pub fn enroll(store: &mut TwoFactorStore, body: EnrollRequest) -> (r: Result<EnrollResponse, EnrollRefusal>)
    requires
        old(store).wf(),
    ensures
        final(store).wf(),
        trim(body.owner@).len() == 0 ==> r == Err::<EnrollResponse, EnrollRefusal>(
            EnrollRefusal::EmptyOwner,
        ) && final(store)@ == old(store)@,
        trim(body.owner@).len() > 0 ==> r != Err::<EnrollResponse, EnrollRefusal>(
            EnrollRefusal::EmptyOwner,
        ),
        r == Err::<EnrollResponse, EnrollRefusal>(EnrollRefusal::NoRandomness) ==> final(store)@
            == old(store)@,
        r matches Ok(resp) ==> resp.owner == body.owner && exists|secret: Vec<u8>|
            secret@.len() == 20 && value_of(final(store)@.enrollments, body.owner@) == Some(
                TotpEnrollment {
                    secret,
                    confirmed: false,
                    email: body.email,
                    phone_number: body.phone_number,
                },
            ) && resp.secret_base32@ == base32_spec(secret@) && resp.otpauth_url@
                == otpauth_url_spec(body.owner@, base32_spec(secret@)),
        r matches Ok(resp) ==> match resp.qr_svg {
            Some(s) => qr_svg_of(resp.otpauth_url@) == Some(s@),
            None => qr_svg_of(resp.otpauth_url@) is None,
        },
        r is Ok ==> forall|o: Seq<char>|
            o != body.owner@ ==> value_of(final(store)@.enrollments, o) == value_of(
                old(store)@.enrollments,
                o,
            ),
        final(store)@.overrides == old(store)@.overrides,
        final(store)@.email_challenges == old(store)@.email_challenges,
{
    let cv = crate::text::chars_of(body.owner.as_str());
    proof {
        assert(cv@.subrange(0, cv@.len() as int) =~= cv@);
    }
    let (a, b) = crate::text::trim_range(&cv, 0, cv.len());
    if a == b {
        return Err(EnrollRefusal::EmptyOwner);
    }
    match store.enroll(body.owner.as_str(), body.email, body.phone_number) {
        Some(resp) => Ok(
            EnrollResponse {
                owner: body.owner,
                secret_base32: resp.secret_base32,
                otpauth_url: resp.otpauth_url,
                qr_svg: resp.qr_svg,
            },
        ),
        None => Err(EnrollRefusal::NoRandomness),
    }
}

/// Confirms the requesting owner's enrollment with its first code at
/// `now`; `false` is answered with 400.
pub fn confirm(store: &mut TwoFactorStore, body: &ConfirmRequest, now: i64) -> (b: bool)
    requires
        old(store).wf(),
        i64::MIN + 30 <= now <= i64::MAX - 30,
    ensures
        final(store).wf(),
        b == match value_of(old(store)@.enrollments, body.owner@) {
            Some(e) => totp_matches_spec(e.secret@, body.code@, now as int),
            None => false,
        },
        b ==> value_of(final(store)@.enrollments, body.owner@) == Some(
            TotpEnrollment { confirmed: true, ..value_of(old(store)@.enrollments, body.owner@)->0 },
        ),
        !b ==> final(store)@ == old(store)@,
{
    store.confirm(body.owner.as_str(), body.code.as_str(), now)
}

/// The answer to every request for an e-mailed code, whether or not one
/// was sent, so that the answer does not tell which owners are enrolled.
pub fn request_otp_message() -> (r: String)
    ensures
        r@ == "if this owner has 2FA enrolled, an OTP email has been sent"@,
{
    let mut m = String::new();
    push_str(&mut m, "if this owner has 2FA enrolled, an OTP email has been sent");
    m
}

/// Handles a request for an e-mailed code at `now`: when the owner is
/// enrolled with an address and mail can be sent, a fresh code is stored
/// and `(address, code)` is returned for sending; otherwise nothing
/// changes.
pub fn request_otp(store: &mut TwoFactorStore, body: &RequestOtpRequest, mail_configured: bool, now: i64) -> (r:
    Option<(String, String)>)
    requires
        old(store).wf(),
        now <= i64::MAX - EMAIL_OTP_VALIDITY_SECS,
    ensures
        final(store).wf(),
        r is Some <==> mail_configured && (value_of(old(store)@.enrollments, body.owner@) matches Some(
            e,
        ) && e.email is Some),
        r is None ==> final(store)@ == old(store)@,
        r matches Some((address, code)) ==> (value_of(old(store)@.enrollments, body.owner@) matches Some(
            e,
        ) && e.email == Some(address)) && (value_of(final(store)@.email_challenges, body.owner@) matches Some(
            c,
        ) && c.code@ == code@ && c.expires_at == now + EMAIL_OTP_VALIDITY_SECS),
        final(store)@.enrollments == old(store)@.enrollments,
        final(store)@.overrides == old(store)@.overrides,
{
    match store.email_for(body.owner.as_str()) {
        Some(address) => {
            if mail_configured {
                let code = store.issue_email_otp(body.owner.as_str(), now);
                Some((address, code))
            } else {
                None
            }
        },
        None => None,
    }
}

/// Lifts a key suspension of the requesting owner for 15 minutes when the
/// TOTP code is right at `now` (answered with 401 otherwise).
pub fn verify_suspension_override(store: &mut TwoFactorStore, body: &SuspensionOverrideRequest, now: i64) -> (b:
    bool)
    requires
        old(store).wf(),
        i64::MIN + 30 <= now <= i64::MAX - OVERRIDE_VALIDITY_SECS,
    ensures
        final(store).wf(),
        b == confirmed_totp_ok(old(store)@.enrollments, body.owner@, body.totp_code@, now as int),
        b ==> value_of(final(store)@.overrides, body.owner@) == Some((now + OVERRIDE_VALIDITY_SECS) as i64),
        !b ==> final(store)@ == old(store)@,
{
    store.verify_for_override(body.owner.as_str(), body.totp_code.as_str(), now)
}

/// Whether `now_secs` can be used for a login: within the TOTP window's
/// arithmetic and with its key expiry representable in milliseconds.
pub open spec fn login_time_in_range(now_secs: i64) -> bool {
    &&& i64::MIN + 30 <= now_secs <= i64::MAX - 30
    &&& i64::MIN <= now_secs * 1000
    &&& now_secs * 1000 + login_key_validity_ms() <= i64::MAX
}

/// The login at `now_secs` (Unix seconds): only when both the e-mailed
/// code and the TOTP code are right is the e-mailed code used up and a new
/// administrator key issued, valid for twelve hours; otherwise nothing
/// changes and `None` is answered (401).
pub fn verify_login(
    store: &mut TwoFactorStore,
    keys: &mut KeyRegistry,
    body: VerifyLoginRequest,
    now_secs: i64,
) -> (r: Option<VerifyLoginResponse>)
    requires
        old(store).wf(),
        old(keys).wf(),
        login_time_in_range(now_secs),
    ensures
        final(store).wf(),
        final(keys).wf(),
        r is Some <==> email_otp_ok(old(store)@.email_challenges, body.owner@, body.email_otp@, now_secs as int)
            && confirmed_totp_ok(old(store)@.enrollments, body.owner@, body.totp_code@, now_secs as int),
        r is None ==> final(store)@ == old(store)@ && final(keys)@ == old(keys)@,
        r is Some ==> value_of(final(store)@.email_challenges, body.owner@) is None,
        r matches Some(resp) ==> resp.owner == body.owner && resp.expires_in_hours == LOGIN_KEY_VALIDITY_HOURS
            && (value_of(final(keys)@, hash_spec(resp.key@)) matches Some(rec) && rec.owner@ == body.owner@
            && rec.roles@.len() == 1 && rec.roles@[0]@ == "admin"@ && rec.created_at == now_secs * 1000
            && rec.expires_at == Some((now_secs * 1000 + login_key_validity_ms()) as i64) && !rec.revoked)
            && forall|h: Seq<char>|
            h != hash_spec(resp.key@) ==> value_of(final(keys)@, h) == value_of(old(keys)@, h),
        final(store)@.enrollments == old(store)@.enrollments,
        final(store)@.overrides == old(store)@.overrides,
{
    if !store.verify_login(body.owner.as_str(), body.email_otp.as_str(), body.totp_code.as_str(), now_secs) {
        return None;
    }
    let now_ms = now_secs * 1000;
    let mut admin = String::new();
    push_str(&mut admin, "admin");
    let mut roles: Vec<String> = Vec::new();
    roles.push(admin);
    let key = keys.issue(body.owner.as_str(), roles, Some(now_ms + LOGIN_KEY_VALIDITY_HOURS * 3600 * 1000), now_ms);
    Some(VerifyLoginResponse { key, owner: body.owner, expires_in_hours: LOGIN_KEY_VALIDITY_HOURS })
}

} // verus!
