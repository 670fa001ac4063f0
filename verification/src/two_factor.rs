//! Two-factor authentication: TOTP (RFC 6238) codes and the store of
//! enrollments, overrides and e-mailed one-time codes.
//!
//! Times are Unix timestamps in whole seconds. Sending the e-mail itself is
//! left to the program around the library.

use vstd::prelude::*;
use crate::keyed::{Keyed, value_of};
use crate::text::{
    all_digits, chars_of, char_from_ascii, decimal_value, digit_value, is_digit, is_ws,
    parse_u64_range, parse_u64_spec, push_char, push_str, trim, trim_end, trim_range, trim_start,
};

verus! {

/// Length of a TOTP time step, in seconds.
pub const TOTP_STEP_SECS: i64 = 30;

/// Number of digits of a TOTP code.
pub const TOTP_DIGITS: u32 = 6;

/// How long a passed second factor lifts a suspension, in seconds.
pub const OVERRIDE_VALIDITY_SECS: i64 = 900;

/// How long an e-mailed one-time code stays valid, in seconds.
pub const EMAIL_OTP_VALIDITY_SECS: i64 = 300;

// ---------------------------------------------------------------------------
// Base32
// ---------------------------------------------------------------------------

/// Character of the RFC 4648 base32 alphabet for a 5-bit value.
pub open spec fn base32_char(v: int) -> char {
    if v < 26 {
        (65 + v) as char
    } else {
        (50 + v - 26) as char
    }
}

/// Number of characters of unpadded base32 of `n` bytes.
pub open spec fn base32_len(n: nat) -> nat {
    (8 * n + 4) / 5
}

/// `2^(11 - o)`: dividing a 16-bit word by it leaves the bits from offset
/// `o` to `o + 4` (counted from the most significant bit) at the bottom.
pub open spec fn group_divisor(o: int) -> int {
    if o == 0 {
        2048
    } else if o == 1 {
        1024
    } else if o == 2 {
        512
    } else if o == 3 {
        256
    } else if o == 4 {
        128
    } else if o == 5 {
        64
    } else if o == 6 {
        32
    } else {
        16
    }
}

/// The 5-bit group `k` of the bit string of `data` (most significant bit
/// first, zeros after the end): bits `5k .. 5k + 5`, read from the 16-bit
/// word made of the byte holding bit `5k` and the byte after it.
pub open spec fn base32_group(data: Seq<u8>, k: int) -> int {
    let p = 5 * k;
    let b = p / 8;
    let o = p % 8;
    let hi = data[b] as int;
    let lo = if b + 1 < data.len() {
        data[b + 1] as int
    } else {
        0
    };
    ((hi * 256 + lo) / group_divisor(o)) % 32
}

/// Unpadded base32 (RFC 4648 §6) of `data`.
pub open spec fn base32_spec(data: Seq<u8>) -> Seq<char> {
    Seq::new(base32_len(data.len()), |k: int| base32_char(base32_group(data, k)))
}

fn base32_char_exec(v: u8) -> (c: char)
    requires
        v < 32,
    ensures
        c == base32_char(v as int),
{
    if v < 26 {
        char_from_ascii(65 + v)
    } else {
        char_from_ascii(50 + v - 26)
    }
}

/// Unpadded base32 of `data`, the form in which a TOTP secret is typed
/// into an authenticator app.
pub fn base32_encode(data: &[u8]) -> (r: String)
    requires
        data@.len() <= usize::MAX / 8,
    ensures
        r@ == base32_spec(data@),
{
    let n = data.len();
    let total = (8 * n + 4) / 5;
    let mut out = String::new();
    let mut k: usize = 0;
    while k < total
        invariant
            n == data@.len(),
            n <= usize::MAX / 8,
            total == base32_len(n as nat),
            k <= total,
            out@ == base32_spec(data@).take(k as int),
        decreases total - k,
    {
        assert(5 * k < 8 * n) by (nonlinear_arith)
            requires
                k < total,
                total == (8 * n + 4) / 5,
        ;
        let p = 5 * k;
        let b = p / 8;
        let o = p % 8;
        let hi = data[b] as u16;
        let lo: u16 = if b + 1 < n {
            data[b + 1] as u16
        } else {
            0
        };
        let w: u32 = hi as u32 * 256 + lo as u32;
        let d: u32 = if o == 0 {
            2048
        } else if o == 1 {
            1024
        } else if o == 2 {
            512
        } else if o == 3 {
            256
        } else if o == 4 {
            128
        } else if o == 5 {
            64
        } else if o == 6 {
            32
        } else {
            16
        };
        let g = ((w / d) % 32) as u8;
        assert(g as int == base32_group(data@, k as int));
        let ch = base32_char_exec(g);
        let ghost before = out@;
        push_char(&mut out, ch);
        assert(out@ =~= base32_spec(data@).take(k + 1)) by {
            assert(base32_spec(data@).take(k + 1) =~= before.push(ch));
        }
        k += 1;
    }
    assert(base32_spec(data@).take(k as int) =~= base32_spec(data@));
    out
}

// ---------------------------------------------------------------------------
// HOTP / TOTP
// ---------------------------------------------------------------------------

/// HMAC-SHA1 tag as computed by the `hmac` crate with `sha1::Sha1`.
pub uninterp spec fn hmac_sha1_tag(key: Seq<u8>, msg: Seq<u8>) -> Seq<u8>;

/// `Hmac::<Sha1>::new_from_slice`, `update`, `finalize`: the contract
/// claims the result is the named HMAC-SHA1 tag of key and message, 20
/// bytes long (the SHA-1 output size).
#[verifier::external_body]
fn hmac_sha1(key: &[u8], msg: &[u8]) -> (r: Vec<u8>)
    ensures
        r@ == hmac_sha1_tag(key@, msg@),
        r@.len() == 20,
{
    let mut mac = <hmac::Hmac<sha1::Sha1> as hmac::Mac>::new_from_slice(key).expect(
        "HMAC accepts keys of any length",
    );
    hmac::Mac::update(&mut mac, msg);
    hmac::Mac::finalize(mac).into_bytes().to_vec()
}

/// Big-endian bytes of `c`.
pub open spec fn be_bytes(c: u64) -> Seq<u8> {
    Seq::new(8, |i: int| ((c >> ((56 - 8 * i) as u64)) & 0xff) as u8)
}

fn be_bytes_exec(c: u64) -> (r: Vec<u8>)
    ensures
        r@ == be_bytes(c),
{
    let mut r: Vec<u8> = Vec::new();
    let mut i: u64 = 0;
    while i < 8
        invariant
            i <= 8,
            r@ == be_bytes(c).take(i as int),
        decreases 8 - i,
    {
        let b = ((c >> (56 - 8 * i)) & 0xff) as u8;
        r.push(b);
        assert(r@ =~= be_bytes(c).take(i + 1));
        i += 1;
    }
    assert(be_bytes(c).take(8) =~= be_bytes(c));
    r
}

/// RFC 4226 dynamic truncation of a 20-byte tag to a 6-digit code.
pub open spec fn truncate_code(tag: Seq<u8>) -> u32 {
    let off = (tag[19] % 16) as int;
    let code = (tag[off] % 128) as int * 16777216 + tag[off + 1] as int * 65536
        + tag[off + 2] as int * 256 + tag[off + 3] as int;
    (code % 1000000) as u32
}

/// HOTP value of `secret` at `counter`.
pub open spec fn hotp_spec(secret: Seq<u8>, counter: u64) -> u32 {
    truncate_code(hmac_sha1_tag(secret, be_bytes(counter)))
}

/// HOTP (RFC 4226) with HMAC-SHA1 and six digits.
pub fn hotp(secret: &[u8], counter: u64) -> (r: u32)
    ensures
        r == hotp_spec(secret@, counter),
{
    let msg = be_bytes_exec(counter);
    let tag = hmac_sha1(secret, msg.as_slice());
    let off = (tag[19] % 16) as usize;
    let code: u32 = (tag[off] % 128) as u32 * 16777216 + tag[off + 1] as u32 * 65536
        + tag[off + 2] as u32 * 256 + tag[off + 3] as u32;
    code % 1000000
}

/// The TOTP counter of Unix time `t`: `t / 30` rounded toward zero, taken
/// as an unsigned 64-bit number (two's complement for times before 1970).
pub open spec fn totp_counter(t: int) -> u64 {
    if t >= 0 {
        (t / 30) as u64
    } else {
        let q = (-t) / 30;
        if q == 0 {
            0
        } else {
            (0x1_0000_0000_0000_0000 - q) as u64
        }
    }
}

fn totp_counter_exec(t: i64) -> (r: u64)
    ensures
        r == totp_counter(t as int),
{
    if t >= 0 {
        (t / 30) as u64
    } else {
        let m: i128 = -(t as i128);
        let q = (m / 30) as u64;
        if q == 0 {
            0
        } else {
            u64::MAX - q + 1
        }
    }
}

/// TOTP code of `secret` at Unix time `t` (30-second steps).
pub fn totp_at(secret: &[u8], t: i64) -> (r: u32)
    ensures
        r == hotp_spec(secret@, totp_counter(t as int)),
{
    hotp(secret, totp_counter_exec(t))
}

/// `u32::from_str`.
pub open spec fn parse_u32_spec(s: Seq<char>) -> Option<u32> {
    match parse_u64_spec(s) {
        Some(v) => if v <= u32::MAX {
            Some(v as u32)
        } else {
            None
        },
        None => None,
    }
}

/// Whether `code` (surrounding whitespace ignored) is the TOTP code of
/// `secret` at `now`, one step before or one step after.
pub open spec fn totp_matches_spec(secret: Seq<u8>, code: Seq<char>, now: int) -> bool {
    match parse_u32_spec(trim(code)) {
        Some(p) => exists|d: int|
            -1 <= d <= 1 && #[trigger] hotp_spec(secret, totp_counter(now + d * 30)) == p,
        None => false,
    }
}

/// Checks a submitted TOTP code, tolerating one step (30 s) of clock skew
/// either way.
pub fn totp_matches(secret: &[u8], code: &str, now: i64) -> (b: bool)
    requires
        i64::MIN + 30 <= now <= i64::MAX - 30,
    ensures
        b == totp_matches_spec(secret@, code@, now as int),
{
    let v = chars_of(code);
    proof {
        assert(v@.subrange(0, v@.len() as int) =~= v@);
    }
    let (a, z) = trim_range(&v, 0, v.len());
    let provided: u32 = match parse_u64_range(&v, a, z) {
        Some(p) => {
            if p > u32::MAX as u64 {
                return false;
            }
            p as u32
        },
        None => return false,
    };
    let c0 = totp_at(secret, now - 30);
    let c1 = totp_at(secret, now);
    let c2 = totp_at(secret, now + 30);
    proof {
        assert(now - 30 == now + (-1) * 30);
        assert(now + 30 == now + 1 * 30);
        assert(hotp_spec(secret@, totp_counter(now + (-1) * 30)) == c0);
        assert(hotp_spec(secret@, totp_counter(now + 0 * 30)) == c1);
        assert(hotp_spec(secret@, totp_counter(now + 1 * 30)) == c2);
    }
    if c0 == provided || c1 == provided || c2 == provided {
        true
    } else {
        proof {
            assert forall|d: int| -1 <= d <= 1 implies #[trigger] hotp_spec(
                secret@,
                totp_counter(now + d * 30),
            ) != provided by {
                if d == -1 {
                } else if d == 0 {
                } else {
                }
            }
        }
        false
    }
}

// ---------------------------------------------------------------------------
// Constant-time comparison
// ---------------------------------------------------------------------------

/// Byte `i` of `s`, or 0 past its end.
pub open spec fn byte_at_or_zero(s: Seq<u8>, i: int) -> u8 {
    if 0 <= i < s.len() {
        s[i]
    } else {
        0
    }
}

/// What the timing-safe comparison answers: plain equality of the two
/// byte strings.
pub open spec fn ct_eq_spec(a: Seq<u8>, b: Seq<u8>) -> bool {
    a == b
}

/// Compares two byte strings in time that does not depend on where they
/// first differ: every byte position of the longer one is read, the
/// shorter one read as zero-padded, and the full lengths are compared.
pub fn ct_eq_bytes(a: &[u8], b: &[u8]) -> (r: bool)
    ensures
        r == ct_eq_spec(a@, b@),
{
    let la = a.len();
    let lb = b.len();
    let same_len = la == lb;
    let mut diff: u8 = 0;
    let m = if la > lb {
        la
    } else {
        lb
    };
    let mut i: usize = 0;
    while i < m
        invariant
            la == a@.len(),
            lb == b@.len(),
            m == if la > lb { la } else { lb },
            i <= m,
            (diff == 0) == (forall|k: int|
                0 <= k < i ==> byte_at_or_zero(a@, k) == byte_at_or_zero(b@, k)),
        decreases m - i,
    {
        let x: u8 = if i < la {
            a[i]
        } else {
            0
        };
        let y: u8 = if i < lb {
            b[i]
        } else {
            0
        };
        assert(x == byte_at_or_zero(a@, i as int));
        assert(y == byte_at_or_zero(b@, i as int));
        let old_diff = diff;
        diff = diff | (x ^ y);
        proof {
            assert((old_diff | (x ^ y)) == 0 <==> (old_diff == 0 && x == y)) by (bit_vector);
        }
        i += 1;
    }
    let r = same_len && diff == 0;
    proof {
        if r {
            assert forall|k: int| 0 <= k < a@.len() implies a@[k] == b@[k] by {
                assert(byte_at_or_zero(a@, k) == byte_at_or_zero(b@, k));
            }
            assert(a@ =~= b@);
        }
        if a@ == b@ {
            assert forall|k: int| 0 <= k < i implies byte_at_or_zero(a@, k) == byte_at_or_zero(b@, k) by {}
        }
    }
    r
}

/// Timing-safe comparison of two texts by their UTF-8 bytes.
pub fn constant_time_eq(a: &str, b: &str) -> (r: bool)
    ensures
        r == ct_eq_spec(encode_utf8_of(a@), encode_utf8_of(b@)),
{
    ct_eq_bytes(a.as_bytes(), b.as_bytes())
}

/// The timing-safe comparison is a drop-in for `==`: two texts compare
/// equal exactly when they are the same text.
pub proof fn law_constant_time_eq_is_equality(a: Seq<char>, b: Seq<char>)
    ensures
        ct_eq_spec(encode_utf8_of(a), encode_utf8_of(b)) <==> a == b,
{
    vstd::utf8::encode_utf8_decode_utf8(a);
    vstd::utf8::encode_utf8_decode_utf8(b);
}

// ---------------------------------------------------------------------------
// Store
// ---------------------------------------------------------------------------

/// A TOTP enrollment.
#[derive(Debug, Clone)]
pub struct TotpEnrollment {
    pub secret: Vec<u8>,
    pub confirmed: bool,
    pub email: Option<String>,
    /// Kept for a later SMS channel; nothing is sent to it.
    pub phone_number: Option<String>,
}

/// An e-mailed one-time code and when it stops being valid.
#[derive(Debug, Clone)]
pub struct EmailOtpChallenge {
    pub code: String,
    pub expires_at: i64,
}

/// What an enrollment hands to the user.
#[derive(Debug, Clone)]
pub struct EnrollmentResponse {
    pub owner: String,
    pub secret_base32: String,
    pub otpauth_url: String,
    pub qr_svg: Option<String>,
}

/// SMTP settings for the e-mailed codes.
#[derive(Debug, Clone)]
pub struct SmtpConfig {
    pub host: String,
    pub port: u16,
    pub username: String,
    pub password: String,
    pub from: String,
}

/// `otpauth://` URI of an enrollment.
pub open spec fn otpauth_url_spec(owner: Seq<char>, secret_base32: Seq<char>) -> Seq<char> {
    "otpauth://totp/open-web-server:"@ + owner + "?secret="@ + secret_base32
        + "&issuer=open-web-server&algorithm=SHA1&digits=6&period=30"@
}

/// SVG QR code of a text, as rendered by `qrcode` (`None` when the text
/// does not fit a QR code).
pub uninterp spec fn qr_svg_of(text: Seq<char>) -> Option<Seq<char>>;

/// `qrcode::QrCode::new` then `render::<svg::Color>()` with a minimum
/// size of 240x240: the contract claims the result is the named rendering
/// of the text.
#[verifier::external_body]
fn qr_svg(text: &str) -> (r: Option<String>)
    ensures
        match r {
            Some(s) => qr_svg_of(text@) == Some(s@),
            None => qr_svg_of(text@) is None,
        },
{
    qrcode::QrCode::new(text.as_bytes()).ok().map(
        |code| code.render::<qrcode::render::svg::Color>().min_dimensions(240, 240).build(),
    )
}

/// `ring::rand::SystemRandom::fill` over `len` zero bytes. Nothing is
/// claimed of the bytes but their number; `None` when the system source
/// of randomness failed.
#[verifier::external_body]
fn random_bytes(len: usize) -> (r: Option<Vec<u8>>)
    ensures
        r matches Some(v) ==> v@.len() == len,
{
    let mut buf = vec![0u8; len];
    match ring::rand::SecureRandom::fill(&ring::rand::SystemRandom::new(), &mut buf) {
        Ok(()) => Some(buf),
        Err(_) => None,
    }
}

/// `rand::thread_rng().gen_range(0..max)`: some number below `max`.
#[verifier::external_body]
fn random_below(max: u32) -> (r: u32)
    requires
        max > 0,
    ensures
        r < max,
{
    rand::Rng::gen_range(&mut rand::thread_rng(), 0..max)
}

/// The six decimal digits of `v`, zero-padded.
pub open spec fn six_digits(v: u32) -> Seq<char> {
    Seq::new(6, |i: int| (48 + (v as int / pow10(5 - i)) % 10) as char)
}

/// `10^e`.
pub open spec fn pow10(e: int) -> int
    decreases e,
{
    if e <= 0 {
        1
    } else {
        10 * pow10(e - 1)
    }
}

proof fn lemma_pow10_positive(e: int)
    ensures
        pow10(e) >= 1,
    decreases e,
{
    if e > 0 {
        lemma_pow10_positive(e - 1);
    }
}

/// The zero-padded six-digit form of `v`.
pub fn format_six_digits(v: u32) -> (r: String)
    requires
        v < 1000000,
    ensures
        r@ == six_digits(v),
{
    let mut r = String::new();
    let mut div: u32 = 100000;
    let mut i: u32 = 0;
    proof {
        reveal_with_fuel(pow10, 6);
    }
    while i < 6
        invariant
            i <= 6,
            div >= 1,
            i < 6 ==> div as int == pow10(5 - i),
            r@ == six_digits(v).take(i as int),
        decreases 6 - i,
    {
        let d = ((v / div) % 10) as u8;
        let ch = char_from_ascii(48 + d);
        let ghost before = r@;
        push_char(&mut r, ch);
        assert(r@ =~= six_digits(v).take(i + 1)) by {
            assert(six_digits(v).take(i + 1) =~= before.push(ch));
        }
        if i < 5 {
            assert(pow10(5 - i) == 10 * pow10(4 - i));
            assert(pow10(4 - i) >= 1) by {
                lemma_pow10_positive(4 - i);
            }
            div = div / 10;
        }
        i += 1;
    }
    assert(six_digits(v).take(6) =~= six_digits(v));
    r
}

/// Enrollments, overrides and e-mailed codes, by owner.
pub struct TwoFactorStore {
    enrollments: Keyed<TotpEnrollment>,
    overrides: Keyed<i64>,
    email_challenges: Keyed<EmailOtpChallenge>,
}

/// Model of the store.
pub struct TwoFactorView {
    pub enrollments: Seq<(Seq<char>, TotpEnrollment)>,
    pub overrides: Seq<(Seq<char>, i64)>,
    pub email_challenges: Seq<(Seq<char>, EmailOtpChallenge)>,
}

impl View for TwoFactorStore {
    type V = TwoFactorView;

    closed spec fn view(&self) -> TwoFactorView {
        TwoFactorView {
            enrollments: self.enrollments@,
            overrides: self.overrides@,
            email_challenges: self.email_challenges@,
        }
    }
}

/// Whether `owner` has a confirmed enrollment whose code `code` is at `now`.
pub open spec fn confirmed_totp_ok(
    enrollments: Seq<(Seq<char>, TotpEnrollment)>,
    owner: Seq<char>,
    code: Seq<char>,
    now: int,
) -> bool {
    match value_of(enrollments, owner) {
        Some(e) => e.confirmed && totp_matches_spec(e.secret@, code, now),
        None => false,
    }
}

/// Whether `code` (whitespace-trimmed) is `owner`'s e-mailed code and it
/// has not expired at `now`.
pub open spec fn email_otp_ok(
    challenges: Seq<(Seq<char>, EmailOtpChallenge)>,
    owner: Seq<char>,
    code: Seq<char>,
    now: int,
) -> bool {
    match value_of(challenges, owner) {
        Some(c) => c.expires_at > now && ct_eq_spec(
            encode_utf8_of(c.code@),
            encode_utf8_of(trim(code)),
        ),
        None => false,
    }
}

/// UTF-8 bytes of a text.
pub open spec fn encode_utf8_of(s: Seq<char>) -> Seq<u8> {
    vstd::utf8::encode_utf8(s)
}

impl TwoFactorStore {
    /// Whether the store is consistent.
    pub closed spec fn wf(&self) -> bool {
        self.enrollments.wf() && self.overrides.wf() && self.email_challenges.wf()
    }

    /// An empty store.
    pub fn new() -> (r: Self)
        ensures
            r.wf(),
            r@.enrollments.len() == 0,
            r@.overrides.len() == 0,
            r@.email_challenges.len() == 0,
    {
        TwoFactorStore {
            enrollments: Keyed::new(),
            overrides: Keyed::new(),
            email_challenges: Keyed::new(),
        }
    }

    /// Records an unconfirmed enrollment of `owner` with `secret` and
    /// builds what is shown to the user.
    pub fn enroll_with_secret(
        &mut self,
        owner: &str,
        email: Option<String>,
        phone_number: Option<String>,
        secret: Vec<u8>,
    ) -> (r: EnrollmentResponse)
        requires
            old(self).wf(),
            secret@.len() <= usize::MAX / 8,
        ensures
            final(self).wf(),
            value_of(final(self)@.enrollments, owner@) == Some(
                TotpEnrollment { secret, confirmed: false, email, phone_number },
            ),
            forall|o: Seq<char>|
                o != owner@ ==> value_of(final(self)@.enrollments, o) == value_of(
                    old(self)@.enrollments,
                    o,
                ),
            final(self)@.overrides == old(self)@.overrides,
            final(self)@.email_challenges == old(self)@.email_challenges,
            r.owner@ == owner@,
            r.secret_base32@ == base32_spec(secret@),
            r.otpauth_url@ == otpauth_url_spec(owner@, base32_spec(secret@)),
            match r.qr_svg {
                Some(s) => qr_svg_of(r.otpauth_url@) == Some(s@),
                None => qr_svg_of(r.otpauth_url@) is None,
            },
    {
        let secret_base32 = base32_encode(secret.as_slice());
        let mut url = String::new();
        push_str(&mut url, "otpauth://totp/open-web-server:");
        push_str(&mut url, owner);
        push_str(&mut url, "?secret=");
        push_str(&mut url, secret_base32.as_str());
        push_str(&mut url, "&issuer=open-web-server&algorithm=SHA1&digits=6&period=30");
        let svg = qr_svg(url.as_str());
        self.enrollments.insert(
            owner.to_owned(),
            TotpEnrollment { secret, confirmed: false, email, phone_number },
        );
        EnrollmentResponse { owner: owner.to_owned(), secret_base32, otpauth_url: url, qr_svg: svg }
    }

    /// Generates a 20-byte random secret and enrolls `owner` with it.
    /// `None`, with nothing recorded, when the system source of randomness
    /// failed.
    pub fn enroll(&mut self, owner: &str, email: Option<String>, phone_number: Option<String>) -> (r:
        Option<EnrollmentResponse>)
        requires
            old(self).wf(),
        ensures
            final(self).wf(),
            r is None ==> final(self)@ == old(self)@,
            r matches Some(resp) ==> exists|secret: Vec<u8>|
                secret@.len() == 20 && value_of(final(self)@.enrollments, owner@) == Some(
                    TotpEnrollment {
                        secret,
                        confirmed: false,
                        email: email,
                        phone_number: phone_number,
                    },
                ) && resp.secret_base32@ == base32_spec(secret@) && resp.otpauth_url@
                    == otpauth_url_spec(owner@, base32_spec(secret@)),
            r matches Some(resp) ==> resp.owner@ == owner@ && match resp.qr_svg {
                Some(s) => qr_svg_of(resp.otpauth_url@) == Some(s@),
                None => qr_svg_of(resp.otpauth_url@) is None,
            },
            forall|o: Seq<char>|
                o != owner@ ==> value_of(final(self)@.enrollments, o) == value_of(
                    old(self)@.enrollments,
                    o,
                ),
            final(self)@.overrides == old(self)@.overrides,
            final(self)@.email_challenges == old(self)@.email_challenges,
    {
        match random_bytes(20) {
            Some(secret) => {
                let ghost s = secret;
                let r = self.enroll_with_secret(owner, email, phone_number, secret);
                Some(r)
            },
            None => None,
        }
    }

    /// Confirms `owner`'s enrollment when `code` is right at `now`.
    pub fn confirm(&mut self, owner: &str, code: &str, now: i64) -> (b: bool)
        requires
            old(self).wf(),
            i64::MIN + 30 <= now <= i64::MAX - 30,
        ensures
            final(self).wf(),
            b == match value_of(old(self)@.enrollments, owner@) {
                Some(e) => totp_matches_spec(e.secret@, code@, now as int),
                None => false,
            },
            b ==> value_of(final(self)@.enrollments, owner@) == Some(
                TotpEnrollment { confirmed: true, ..value_of(old(self)@.enrollments, owner@)->0 },
            ),
            !b ==> final(self)@ == old(self)@,
            forall|o: Seq<char>|
                o != owner@ ==> value_of(final(self)@.enrollments, o) == value_of(
                    old(self)@.enrollments,
                    o,
                ),
            final(self)@.overrides == old(self)@.overrides,
            final(self)@.email_challenges == old(self)@.email_challenges,
    {
        let ok = match self.enrollments.get(owner) {
            Some(e) => totp_matches(e.secret.as_slice(), code, now),
            None => false,
        };
        if !ok {
            return false;
        }
        match self.enrollments.remove(owner) {
            Some(e) => {
                let updated = TotpEnrollment {
                    secret: e.secret,
                    confirmed: true,
                    email: e.email,
                    phone_number: e.phone_number,
                };
                self.enrollments.insert(owner.to_owned(), updated);
                true
            },
            None => false,
        }
    }

    /// The enrollment of `owner`.
    pub fn enrollment(&self, owner: &str) -> (r: Option<&TotpEnrollment>)
        requires
            self.wf(),
        ensures
            match r {
                Some(e) => value_of(self@.enrollments, owner@) == Some(*e),
                None => value_of(self@.enrollments, owner@) is None,
            },
    {
        self.enrollments.get(owner)
    }

    /// Whether `owner` has a confirmed enrollment.
    pub fn has_confirmed_enrollment(&self, owner: &str) -> (b: bool)
        requires
            self.wf(),
        ensures
            b == (value_of(self@.enrollments, owner@) matches Some(e) && e.confirmed),
    {
        match self.enrollments.get(owner) {
            Some(e) => e.confirmed,
            None => false,
        }
    }

    /// Second factor while a key is suspended: when `owner` has a confirmed
    /// enrollment and `code` is right, lifts the suspension for 15 minutes.
    pub fn verify_for_override(&mut self, owner: &str, code: &str, now: i64) -> (b: bool)
        requires
            old(self).wf(),
            i64::MIN + 30 <= now <= i64::MAX - OVERRIDE_VALIDITY_SECS,
        ensures
            final(self).wf(),
            b == confirmed_totp_ok(old(self)@.enrollments, owner@, code@, now as int),
            b ==> value_of(final(self)@.overrides, owner@) == Some((now + OVERRIDE_VALIDITY_SECS) as i64),
            !b ==> final(self)@ == old(self)@,
            forall|o: Seq<char>|
                o != owner@ ==> value_of(final(self)@.overrides, o) == value_of(
                    old(self)@.overrides,
                    o,
                ),
            final(self)@.enrollments == old(self)@.enrollments,
            final(self)@.email_challenges == old(self)@.email_challenges,
    {
        let ok = match self.enrollments.get(owner) {
            Some(e) => e.confirmed && totp_matches(e.secret.as_slice(), code, now),
            None => false,
        };
        if ok {
            self.overrides.insert(owner.to_owned(), now + OVERRIDE_VALIDITY_SECS);
        }
        ok
    }

    /// Whether `owner` holds an override that has not expired at `now`.
    pub fn has_valid_override(&self, owner: &str, now: i64) -> (b: bool)
        requires
            self.wf(),
        ensures
            b == (value_of(self@.overrides, owner@) matches Some(t) && t > now),
    {
        match self.overrides.get(owner) {
            Some(t) => *t > now,
            None => false,
        }
    }

    /// The e-mail address of `owner`'s enrollment.
    pub fn email_for(&self, owner: &str) -> (r: Option<String>)
        requires
            self.wf(),
        ensures
            r == match value_of(self@.enrollments, owner@) {
                Some(e) => e.email,
                None => None,
            },
    {
        match self.enrollments.get(owner) {
            Some(e) => e.email.clone(),
            None => None,
        }
    }

    /// Stores a fresh six-digit code for `owner`, valid for five minutes,
    /// and returns it; sending it is the caller's part.
    pub fn issue_email_otp(&mut self, owner: &str, now: i64) -> (r: String)
        requires
            old(self).wf(),
            now <= i64::MAX - EMAIL_OTP_VALIDITY_SECS,
        ensures
            final(self).wf(),
            exists|v: u32|
                v < 1000000 && r@ == #[trigger] six_digits(v) && (value_of(
                    final(self)@.email_challenges,
                    owner@,
                ) matches Some(c) && c.code@ == six_digits(v) && c.expires_at == now
                    + EMAIL_OTP_VALIDITY_SECS),
            forall|o: Seq<char>|
                o != owner@ ==> value_of(final(self)@.email_challenges, o) == value_of(
                    old(self)@.email_challenges,
                    o,
                ),
            final(self)@.enrollments == old(self)@.enrollments,
            final(self)@.overrides == old(self)@.overrides,
    {
        let v = random_below(1000000);
        let code = format_six_digits(v);
        let stored = code.clone();
        self.email_challenges.insert(
            owner.to_owned(),
            EmailOtpChallenge { code: stored, expires_at: now + EMAIL_OTP_VALIDITY_SECS },
        );
        code
    }

    fn email_otp_matches(&self, owner: &str, code: &str, now: i64) -> (b: bool)
        requires
            self.wf(),
        ensures
            b == email_otp_ok(self@.email_challenges, owner@, code@, now as int),
    {
        match self.email_challenges.get(owner) {
            Some(c) => {
                if c.expires_at > now {
                    let v = chars_of(code);
                    proof {
                        assert(v@.subrange(0, v@.len() as int) =~= v@);
                    }
                    let (a, z) = trim_range(&v, 0, v.len());
                    let t = crate::text::substring(&v, a, z);
                    constant_time_eq(c.code.as_str(), t.as_str())
                } else {
                    false
                }
            },
            None => false,
        }
    }

    /// Administrator login: succeeds only when both the e-mailed code and
    /// the TOTP code are right; on success the e-mailed code is used up.
    pub fn verify_login(&mut self, owner: &str, email_code: &str, totp_code: &str, now: i64) -> (b:
        bool)
        requires
            old(self).wf(),
            i64::MIN + 30 <= now <= i64::MAX - 30,
        ensures
            final(self).wf(),
            b == (email_otp_ok(old(self)@.email_challenges, owner@, email_code@, now as int)
                && confirmed_totp_ok(old(self)@.enrollments, owner@, totp_code@, now as int)),
            b ==> value_of(final(self)@.email_challenges, owner@) is None,
            b ==> forall|o: Seq<char>|
                o != owner@ ==> value_of(final(self)@.email_challenges, o) == value_of(
                    old(self)@.email_challenges,
                    o,
                ),
            !b ==> final(self)@ == old(self)@,
            final(self)@.enrollments == old(self)@.enrollments,
            final(self)@.overrides == old(self)@.overrides,
    {
        if !self.email_otp_matches(owner, email_code, now) {
            return false;
        }
        let totp_ok = match self.enrollments.get(owner) {
            Some(e) => e.confirmed && totp_matches(e.secret.as_slice(), totp_code, now),
            None => false,
        };
        if !totp_ok {
            return false;
        }
        let _ = self.email_challenges.remove(owner);
        true
    }
}

/// A successful login uses the e-mailed code up: the same codes presented
/// again are refused.
pub proof fn law_email_code_is_single_use(
    after: Seq<(Seq<char>, EmailOtpChallenge)>,
    owner: Seq<char>,
    code: Seq<char>,
    now: int,
)
    requires
        value_of(after, owner) is None,
    ensures
        !email_otp_ok(after, owner, code, now),
{
}

proof fn lemma_six_digits_value(v: u32, k: int)
    requires
        v < 1000000,
        0 <= k <= 6,
    ensures
        decimal_value(six_digits(v).take(k)) == v as int / pow10(6 - k),
        all_digits(six_digits(v).take(k)),
    decreases k,
{
    let s = six_digits(v);
    if k == 0 {
        reveal_with_fuel(pow10, 7);
        assert(s.take(0) =~= Seq::<char>::empty());
        assert(pow10(6) == 1000000);
        assert(v as int / 1000000 == 0);
    } else {
        lemma_six_digits_value(v, k - 1);
        assert(s.take(k).drop_last() =~= s.take(k - 1));
        lemma_pow10_positive(6 - k);
        let p = pow10(6 - k);
        let q = v as int / p;
        assert(pow10(7 - k) == 10 * p);
        assert(s.take(k).last() == s[k - 1]);
        assert(digit_value(s[k - 1]) == q % 10);
        vstd::arithmetic::div_mod::lemma_div_denominator(v as int, p, 10);
        assert(p * 10 == 10 * p) by (nonlinear_arith);
        vstd::arithmetic::div_mod::lemma_fundamental_div_mod(q, 10);
        assert(q >= 0);
        assert(q % 10 >= 0);
        let prev = decimal_value(s.take(k - 1));
        assert(prev == q / 10);
        assert((q / 10) * 10 == 10 * (q / 10)) by (nonlinear_arith);
        assert(decimal_value(s.take(k)) == prev * 10 + digit_value(s.take(k).last()));
        assert(decimal_value(s.take(k)) == q);
        assert(forall|i: int| 0 <= i < k ==> is_digit(#[trigger] s.take(k)[i])) by {
            assert forall|i: int| 0 <= i < k implies is_digit(#[trigger] s.take(k)[i]) by {
                if i < k - 1 {
                    assert(s.take(k)[i] == s.take(k - 1)[i]);
                }
            }
        }
    }
}

/// The six-digit form of a code reads back as that code.
proof fn lemma_six_digits_parse(v: u32)
    requires
        v < 1000000,
    ensures
        parse_u32_spec(trim(six_digits(v))) == Some(v),
{
    let s = six_digits(v);
    lemma_six_digits_value(v, 6);
    assert(s.take(6) =~= s);
    assert(!is_ws(s[0]));
    assert(trim_start(s) == s);
    assert(!is_ws(s.last()));
    assert(trim_end(s) == s);
    reveal_with_fuel(pow10, 1);
}

/// A code shown by an authenticator is accepted: the six-digit TOTP code
/// of `secret` at `now`, one step before or one step after, matches at
/// `now`.
pub proof fn law_authenticator_code_is_accepted(secret: Seq<u8>, now: int, d: int)
    requires
        -1 <= d <= 1,
    ensures
        totp_matches_spec(secret, six_digits(hotp_spec(secret, totp_counter(now + d * 30))), now),
{
    let v = hotp_spec(secret, totp_counter(now + d * 30));
    assert(v < 1000000);
    lemma_six_digits_parse(v);
}

} // verus!
