//! ACME (RFC 8555) HTTP-01 support: the store of published key
//! authorizations that a certificate authority fetches, and the encodings
//! and decisions of the client side.
//!
//! The network exchange with the certificate authority, the account key
//! (ECDSA P-256) and request signing stay with the program around the
//! library.

use vstd::prelude::*;
use vstd::utf8::encode_utf8;
use crate::keyed::{Keyed, value_of};
use crate::text::{chars_of, push_char, push_str, starts_with, str_eq, str_starts_with, substring};

verus! {

/// Path under which HTTP-01 challenge tokens are served.
pub open spec fn challenge_path_prefix() -> Seq<char> {
    "/.well-known/acme-challenge/"@
}

/// Token → key authorization, as published for the certificate authority.
pub struct ChallengeStore {
    tokens: Keyed<String>,
}

/// Model of the store: token to key authorization.
pub open spec fn store_lookup(s: Seq<(Seq<char>, String)>, token: Seq<char>) -> Option<Seq<char>> {
    match value_of(s, token) {
        Some(v) => Some(v@),
        None => None,
    }
}

impl View for ChallengeStore {
    type V = Seq<(Seq<char>, String)>;

    closed spec fn view(&self) -> Seq<(Seq<char>, String)> {
        self.tokens@
    }
}

impl ChallengeStore {
    /// Whether the store is consistent (one key authorization per token).
    pub closed spec fn wf(&self) -> bool {
        self.tokens.wf()
    }

    /// An empty store.
    pub fn new() -> (r: Self)
        ensures
            r.wf(),
            forall|t: Seq<char>| store_lookup(r@, t) is None,
    {
        ChallengeStore { tokens: Keyed::new() }
    }

    /// Publishes `key_authorization` for `token`, replacing an earlier one.
    pub fn publish(&mut self, token: String, key_authorization: String)
        requires
            old(self).wf(),
        ensures
            final(self).wf(),
            store_lookup(final(self)@, token@) == Some(key_authorization@),
            forall|t: Seq<char>| t != token@ ==> store_lookup(final(self)@, t) == store_lookup(old(self)@, t),
    {
        self.tokens.insert(token, key_authorization);
    }

    /// The key authorization published for `token`.
    pub fn get(&self, token: &str) -> (r: Option<String>)
        requires
            self.wf(),
        ensures
            match r {
                Some(v) => store_lookup(self@, token@) == Some(v@),
                None => store_lookup(self@, token@) is None,
            },
    {
        match self.tokens.get(token) {
            Some(v) => Some(v.clone()),
            None => None,
        }
    }

    /// Withdraws `token`; withdrawing an absent token does nothing.
    pub fn remove(&mut self, token: &str)
        requires
            old(self).wf(),
        ensures
            final(self).wf(),
            store_lookup(final(self)@, token@) is None,
            forall|t: Seq<char>| t != token@ ==> store_lookup(final(self)@, t) == store_lookup(old(self)@, t),
    {
        let _ = self.tokens.remove(token);
    }

    /// The body served for a request path: the key authorization of the
    /// token after the challenge prefix, or `None` (answered with 404) for
    /// other paths, an empty token or an unpublished one.
    pub fn challenge_response(&self, path: &str) -> (r: Option<String>)
        requires
            self.wf(),
        ensures
            match challenge_token_spec(path@) {
                Some(t) => match r {
                    Some(v) => store_lookup(self@, t) == Some(v@),
                    None => store_lookup(self@, t) is None,
                },
                None => r is None,
            },
    {
        match challenge_token(path) {
            Some(t) => self.get(t.as_str()),
            None => None,
        }
    }
}

/// The token of a challenge request path, when it is under the challenge
/// prefix and not empty.
pub open spec fn challenge_token_spec(path: Seq<char>) -> Option<Seq<char>> {
    if starts_with(path, challenge_path_prefix()) && path.len() > challenge_path_prefix().len() {
        Some(path.skip(challenge_path_prefix().len() as int))
    } else {
        None
    }
}

/// Extracts the token from `/.well-known/acme-challenge/<token>`.
pub fn challenge_token(path: &str) -> (r: Option<String>)
    ensures
        match r {
            Some(t) => challenge_token_spec(path@) == Some(t@),
            None => challenge_token_spec(path@) is None,
        },
{
    let prefix = "/.well-known/acme-challenge/";
    proof {
        reveal_strlit("/.well-known/acme-challenge/");
    }
    if !str_starts_with(path, prefix) {
        return None;
    }
    let v = chars_of(path);
    let n = prefix.unicode_len();
    if v.len() == n {
        return None;
    }
    let t = substring(&v, n, v.len());
    assert(path@.skip(n as int) =~= v@.subrange(n as int, v@.len() as int));
    Some(t)
}

// ---------------------------------------------------------------------------
// Base64url
// ---------------------------------------------------------------------------

/// Character of the URL-safe base64 alphabet for a 6-bit value.
pub open spec fn b64_char(v: int) -> char {
    if v < 26 {
        (65 + v) as char
    } else if v < 52 {
        (97 + v - 26) as char
    } else if v < 62 {
        (48 + v - 52) as char
    } else if v == 62 {
        '-'
    } else {
        '_'
    }
}

/// Byte `i` of `data`, or 0 past its end.
pub open spec fn byte_or_zero(data: Seq<u8>, i: int) -> int {
    if 0 <= i < data.len() {
        data[i] as int
    } else {
        0
    }
}

/// The 6-bit value of output character `k`: character `k % 4` of the
/// 3-byte chunk `k / 4`, missing bytes read as 0.
pub open spec fn b64_index(data: Seq<u8>, k: int) -> int {
    let c = k / 4;
    let b0 = byte_or_zero(data, 3 * c);
    let b1 = byte_or_zero(data, 3 * c + 1);
    let b2 = byte_or_zero(data, 3 * c + 2);
    let j = k % 4;
    if j == 0 {
        b0 / 4
    } else if j == 1 {
        (b0 % 4) * 16 + b1 / 16
    } else if j == 2 {
        (b1 % 16) * 4 + b2 / 64
    } else {
        b2 % 64
    }
}

/// Length of unpadded base64 of `n` bytes.
pub open spec fn b64_len(n: nat) -> nat {
    (n / 3) * 4 + if n % 3 == 0 {
        0
    } else {
        n % 3 + 1
    }
}

/// Unpadded base64url (RFC 4648 §5) of `data`.
pub open spec fn base64url_spec(data: Seq<u8>) -> Seq<char> {
    Seq::new(b64_len(data.len()), |k: int| b64_char(b64_index(data, k)))
}

fn b64_char_exec(v: u8) -> (c: char)
    requires
        v < 64,
    ensures
        c == b64_char(v as int),
{
    if v < 26 {
        crate::text::char_from_ascii(65 + v)
    } else if v < 52 {
        crate::text::char_from_ascii(97 + v - 26)
    } else if v < 62 {
        crate::text::char_from_ascii(48 + v - 52)
    } else if v == 62 {
        '-'
    } else {
        '_'
    }
}

/// Unpadded base64url encoding (RFC 7515 §2).
pub fn base64url_encode(bytes: &[u8]) -> (r: String)
    requires
        bytes@.len() <= usize::MAX / 4,
    ensures
        r@ == base64url_spec(bytes@),
{
    let n = bytes.len();
    let total = (n / 3) * 4 + if n % 3 == 0 {
        0
    } else {
        n % 3 + 1
    };
    let mut out = String::new();
    let mut k: usize = 0;
    while k < total
        invariant
            n == bytes@.len(),
            n <= usize::MAX / 4,
            total == b64_len(n as nat),
            k <= total,
            out@ == base64url_spec(bytes@).take(k as int),
        decreases total - k,
    {
        let c = k / 4;
        assert(3 * c < n) by (nonlinear_arith)
            requires
                k < total,
                total == (n / 3) * 4 + if n % 3 == 0 { 0 } else { n % 3 + 1 },
                c == k / 4,
        ;
        let b0 = bytes[3 * c] as u32;
        let b1: u32 = if 3 * c + 1 < n {
            bytes[3 * c + 1] as u32
        } else {
            0
        };
        let b2: u32 = if 3 * c + 2 < n {
            bytes[3 * c + 2] as u32
        } else {
            0
        };
        let j = k % 4;
        let v: u32 = if j == 0 {
            b0 / 4
        } else if j == 1 {
            (b0 % 4) * 16 + b1 / 16
        } else if j == 2 {
            (b1 % 16) * 4 + b2 / 64
        } else {
            b2 % 64
        };
        assert(v == b64_index(bytes@, k as int));
        let ch = b64_char_exec(v as u8);
        let ghost before = out@;
        push_char(&mut out, ch);
        assert(out@ =~= base64url_spec(bytes@).take(k + 1)) by {
            assert(base64url_spec(bytes@).take(k + 1) =~= before.push(ch));
        }
        k += 1;
    }
    assert(base64url_spec(bytes@).take(k as int) =~= base64url_spec(bytes@));
    out
}

// ---------------------------------------------------------------------------
// Key authorization
// ---------------------------------------------------------------------------

/// SHA-256 digest as computed by `ring::digest::digest(&SHA256, ..)`.
pub uninterp spec fn ring_sha256(data: Seq<u8>) -> Seq<u8>;

/// `ring::digest::digest` with `SHA256`: the contract claims the result
/// is the named SHA-256 digest of the input and is 32 bytes long.
#[verifier::external_body]
fn sha256_ring(data: &[u8]) -> (r: Vec<u8>)
    ensures
        r@ == ring_sha256(data@),
        r@.len() == 32,
{
    ring::digest::digest(&ring::digest::SHA256, data).as_ref().to_vec()
}

/// The canonical JSON of an EC P-256 public key whose coordinates are the
/// base64url texts `x` and `y` (RFC 7638 member order).
pub open spec fn canonical_jwk(x: Seq<char>, y: Seq<char>) -> Seq<char> {
    "{\"crv\":\"P-256\",\"kty\":\"EC\",\"x\":\""@ + x + "\",\"y\":\""@ + y + "\"}"@
}

/// RFC 7638 thumbprint of an uncompressed P-256 point (`0x04 || x || y`).
pub open spec fn jwk_thumbprint_spec(public_key: Seq<u8>) -> Seq<char> {
    let x = base64url_spec(public_key.subrange(1, 33));
    let y = base64url_spec(public_key.subrange(33, 65));
    base64url_spec(ring_sha256(encode_utf8(canonical_jwk(x, y))))
}

/// RFC 7638 JWK thumbprint of an account key's public point:
/// base64url(SHA-256(canonical JWK)).
pub fn jwk_thumbprint(public_key: &[u8]) -> (r: String)
    requires
        public_key@.len() == 65,
    ensures
        r@ == jwk_thumbprint_spec(public_key@),
{
    let xs = public_key.split_at(33);
    let head = xs.0.split_at(1);
    let x = base64url_encode(head.1);
    let y = base64url_encode(xs.1);
    proof {
        assert(head.1@ =~= public_key@.subrange(1, 33));
        assert(xs.1@ =~= public_key@.subrange(33, 65));
    }
    let mut canonical = String::new();
    push_str(&mut canonical, "{\"crv\":\"P-256\",\"kty\":\"EC\",\"x\":\"");
    push_str(&mut canonical, x.as_str());
    push_str(&mut canonical, "\",\"y\":\"");
    push_str(&mut canonical, y.as_str());
    push_str(&mut canonical, "\"}");
    let digest = sha256_ring(canonical.as_str().as_bytes());
    base64url_encode(digest.as_slice())
}

/// The HTTP-01 key authorization: `token` `.` thumbprint (RFC 8555 §8.1).
pub fn http01_key_authorization(token: &str, thumbprint: &str) -> (r: String)
    ensures
        r@ == token@ + seq!['.'] + thumbprint@,
{
    let mut r = String::new();
    push_str(&mut r, token);
    push_char(&mut r, '.');
    push_str(&mut r, thumbprint);
    r
}

// ---------------------------------------------------------------------------
// Orders and authorizations
// ---------------------------------------------------------------------------

/// An ACME order as the certificate authority describes it.
#[derive(Debug, Clone)]
pub struct AcmeOrder {
    pub status: String,
    pub authorizations: Vec<String>,
    pub finalize: String,
    pub certificate: Option<String>,
}

/// One challenge offered for an authorization.
#[derive(Debug, Clone)]
pub struct AcmeChallenge {
    pub challenge_type: String,
    pub url: String,
    pub token: String,
    pub status: String,
}

/// An authorization with its challenges.
#[derive(Debug, Clone)]
pub struct AcmeAuthorization {
    pub status: String,
    pub challenges: Vec<AcmeChallenge>,
}

/// The first `http-01` challenge of an authorization.
pub fn http01_challenge(auth: &AcmeAuthorization) -> (r: Option<&AcmeChallenge>)
    ensures
        r is None <==> forall|i: int|
            0 <= i < auth.challenges@.len() ==> (#[trigger] auth.challenges@[i]).challenge_type@
                != "http-01"@,
        r matches Some(c) ==> exists|i: int|
            0 <= i < auth.challenges@.len() && #[trigger] auth.challenges@[i] == *c
                && c.challenge_type@ == "http-01"@ && forall|j: int|
                0 <= j < i ==> (#[trigger] auth.challenges@[j]).challenge_type@ != "http-01"@,
{
    let mut i: usize = 0;
    while i < auth.challenges.len()
        invariant
            i <= auth.challenges.len(),
            forall|j: int|
                0 <= j < i ==> (#[trigger] auth.challenges@[j]).challenge_type@ != "http-01"@,
        decreases auth.challenges.len() - i,
    {
        if str_eq(auth.challenges[i].challenge_type.as_str(), "http-01") {
            return Some(&auth.challenges[i]);
        }
        i += 1;
    }
    None
}

/// What polling an authorization does with the status it read.
#[derive(Debug, Clone, Copy, PartialEq, Eq, Structural)]
pub enum PollStep {
    /// The authorization is valid: done.
    Valid,
    /// Still pending: wait and poll again.
    Pending,
    /// Any other status: the authorization failed.
    Failed,
}

/// The polling decision for an authorization status.
pub fn poll_step(status: &str) -> (r: PollStep)
    ensures
        status@ == "valid"@ ==> r == PollStep::Valid,
        status@ == "pending"@ ==> r == PollStep::Pending,
        status@ != "valid"@ && status@ != "pending"@ ==> r == PollStep::Failed,
{
    proof {
        reveal_strlit("valid");
        reveal_strlit("pending");
        assert("valid"@.len() != "pending"@.len());
    }
    if str_eq(status, "valid") {
        PollStep::Valid
    } else if str_eq(status, "pending") {
        PollStep::Pending
    } else {
        PollStep::Failed
    }
}

/// A character of the URL-safe base64 alphabet: `A`-`Z`, `a`-`z`, `0`-`9`,
/// `-` or `_`.
pub open spec fn is_b64url_char(c: char) -> bool {
    (65 <= c as u32 && c as u32 <= 90) || (97 <= c as u32 && c as u32 <= 122) || (48 <= c as u32
        && c as u32 <= 57) || c == '-' || c == '_'
}

/// The unpadded base64url text of `n` bytes has `(4n + 2) / 3`
/// characters, all from the URL-safe alphabet.
pub proof fn law_base64url_length_and_alphabet(data: Seq<u8>)
    ensures
        base64url_spec(data).len() == (4 * data.len() + 2) / 3,
        forall|k: int| 0 <= k < base64url_spec(data).len() ==> is_b64url_char(#[trigger] base64url_spec(data)[k]),
{
    let n = data.len() as int;
    let q = n / 3;
    let r = n % 3;
    assert(n == 3 * q + r && 0 <= r < 3);
    assert(4 * n + 2 == 3 * (4 * q + r) + (r + 2)) by (nonlinear_arith)
        requires n == 3 * q + r;
    assert((4 * n + 2) / 3 == 4 * q + r + (r + 2) / 3) by (nonlinear_arith)
        requires 4 * n + 2 == 3 * (4 * q + r) + (r + 2), 0 <= r < 3;
    assert forall|k: int| 0 <= k < base64url_spec(data).len() implies is_b64url_char(
        #[trigger] base64url_spec(data)[k],
    ) by {
        let c = k / 4;
        let b0 = byte_or_zero(data, 3 * c);
        let b1 = byte_or_zero(data, 3 * c + 1);
        let b2 = byte_or_zero(data, 3 * c + 2);
        assert(0 <= b0 < 256 && 0 <= b1 < 256 && 0 <= b2 < 256);
        let v = b64_index(data, k);
        assert(0 <= v < 64);
    }
}

/// The challenge path built from a non-empty token is answered with that
/// very token's key authorization.
pub proof fn law_challenge_path_round_trip(token: Seq<char>)
    requires
        token.len() > 0,
    ensures
        challenge_token_spec(challenge_path_prefix() + token) == Some(token),
{
    let p = challenge_path_prefix() + token;
    assert(p.subrange(0, challenge_path_prefix().len() as int) =~= challenge_path_prefix());
    assert(p.skip(challenge_path_prefix().len() as int) =~= token);
}

} // verus!
