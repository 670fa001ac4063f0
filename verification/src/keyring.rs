//! Self-managed API keys: issued automatically, stored only as hashes,
//! revoked per owner, and cleaned up when expired.
//!
//! The learned request-rate guard that suspends a key under an anomalous
//! burst works with floating-point averages and stays with the program
//! around the library; the library answers what the stored records say of
//! a presented key.

use vstd::prelude::*;
use vstd::utf8::encode_utf8;
use crate::keyed::{Keyed, has_key, keys_unique, value_of};
use crate::text::{char_from_ascii, clone_strings, push_char, push_str, trim};

verus! {

/// Lower-case hexadecimal digit of a value below 16.
pub open spec fn hex_lower(v: int) -> char {
    if v < 10 {
        (48 + v) as char
    } else {
        (87 + v) as char
    }
}

/// Lower-case hexadecimal text of bytes, two digits per byte.
pub open spec fn hex_spec(bytes: Seq<u8>) -> Seq<char>
    decreases bytes.len(),
{
    if bytes.len() == 0 {
        Seq::empty()
    } else {
        hex_spec(bytes.drop_last()) + seq![
            hex_lower(bytes.last() as int / 16),
            hex_lower(bytes.last() as int % 16),
        ]
    }
}

fn hex_lower_exec(v: u8) -> (c: char)
    requires
        v < 16,
    ensures
        c == hex_lower(v as int),
{
    if v < 10 {
        char_from_ascii(48 + v)
    } else {
        char_from_ascii(87 + v)
    }
}

/// Lower-case hexadecimal text of `bytes`.
pub fn to_hex(bytes: &[u8]) -> (r: String)
    ensures
        r@ == hex_spec(bytes@),
{
    let mut r = String::new();
    let mut i: usize = 0;
    while i < bytes.len()
        invariant
            i <= bytes@.len(),
            r@ == hex_spec(bytes@.take(i as int)),
        decreases bytes.len() - i,
    {
        let b = bytes[i];
        let ghost before = r@;
        push_char(&mut r, hex_lower_exec(b / 16));
        push_char(&mut r, hex_lower_exec(b % 16));
        proof {
            assert(bytes@.take(i + 1).drop_last() =~= bytes@.take(i as int));
            assert(r@ =~= before + seq![hex_lower(b as int / 16), hex_lower(b as int % 16)]);
        }
        i += 1;
    }
    assert(bytes@.take(i as int) =~= bytes@);
    r
}

/// SHA-256 digest as computed by the `sha2` crate.
pub uninterp spec fn sha2_sha256(data: Seq<u8>) -> Seq<u8>;

/// `sha2::Sha256::new`, `update`, `finalize`: the contract claims the
/// result is the named SHA-256 digest of the input, 32 bytes long.
#[verifier::external_body]
fn sha256(data: &[u8]) -> (r: Vec<u8>)
    ensures
        r@ == sha2_sha256(data@),
        r@.len() == 32,
{
    let mut hasher = <sha2::Sha256 as sha2::Digest>::new();
    sha2::Digest::update(&mut hasher, data);
    sha2::Digest::finalize(hasher).to_vec()
}

/// The stored form of a key: hexadecimal SHA-256 of its UTF-8 bytes.
pub open spec fn hash_spec(key: Seq<char>) -> Seq<char> {
    hex_spec(sha2_sha256(encode_utf8(key)))
}

/// The stored form of a plaintext key.
pub fn hash_key(key: &str) -> (r: String)
    ensures
        r@ == hash_spec(key@),
{
    let d = sha256(key.as_bytes());
    to_hex(d.as_slice())
}

/// `uuid::Uuid::new_v4().simple().to_string()`: a random version-4 UUID as
/// 32 lowercase hexadecimal digits (`Simple`'s `Display` writes each byte
/// as two lowercase hex digits). Only this form is claimed, not the value.
#[verifier::external_body]
fn random_uuid_simple() -> (r: String)
    ensures
        r@.len() == 32,
        forall|i: int| 0 <= i < 32 ==> crate::text::is_lower_hex_digit(#[trigger] r@[i]),
{
    uuid::Uuid::new_v4().simple().to_string()
}

/// One registered key.
#[derive(Debug, Clone, PartialEq, Eq)]
pub struct KeyRecord {
    pub owner: String,
    pub roles: Vec<String>,
    /// Issue time, Unix milliseconds.
    pub created_at: i64,
    /// Expiry time, Unix milliseconds (none: never).
    pub expires_at: Option<i64>,
    pub revoked: bool,
}

/// What the stored records say of a presented key.
#[derive(Debug, Clone, PartialEq, Eq)]
pub enum KeyLookup {
    /// No key was ever issued: the caller decides how lenient to be.
    RegistryEmpty,
    /// Unknown, revoked or expired.
    Rejected,
    /// A valid key, with its owner and roles.
    Active { owner: String, roles: Vec<String> },
}

/// Verification result of a presented key.
#[derive(Debug, Clone, PartialEq, Eq)]
pub enum KeyDecision {
    RegistryEmpty,
    /// A valid key, with its owner and roles.
    Valid { owner: String, roles: Vec<String> },
    Rejected,
    /// The key is quarantined after an anomalous burst of requests.
    Suspended,
}

/// Number of records of `owner` not yet revoked.
pub open spec fn live_of_owner(s: Seq<(Seq<char>, KeyRecord)>, owner: Seq<char>) -> nat
    decreases s.len(),
{
    if s.len() == 0 {
        0
    } else {
        live_of_owner(s.drop_last(), owner) + if s.last().1.owner@ == owner && !s.last().1.revoked {
            1nat
        } else {
            0nat
        }
    }
}

/// Number of records not revoked.
pub open spec fn live_count(s: Seq<(Seq<char>, KeyRecord)>) -> nat
    decreases s.len(),
{
    if s.len() == 0 {
        0
    } else {
        live_count(s.drop_last()) + if !s.last().1.revoked {
            1nat
        } else {
            0nat
        }
    }
}

/// The record after revoking `owner`'s keys.
pub open spec fn revoked_if_owner(r: KeyRecord, owner: Seq<char>) -> KeyRecord {
    if r.owner@ == owner {
        KeyRecord { revoked: true, ..r }
    } else {
        r
    }
}

/// The key registry, by hashed key.
pub struct KeyRegistry {
    records: Keyed<KeyRecord>,
}

impl View for KeyRegistry {
    type V = Seq<(Seq<char>, KeyRecord)>;

    closed spec fn view(&self) -> Seq<(Seq<char>, KeyRecord)> {
        self.records@
    }
}

impl KeyRegistry {
    /// Whether the registry is consistent.
    pub closed spec fn wf(&self) -> bool {
        self.records.wf()
    }

    /// An empty registry.
    pub fn new() -> (r: Self)
        ensures
            r.wf(),
            r@.len() == 0,
    {
        KeyRegistry { records: Keyed::new() }
    }

    /// Stores `plaintext`'s record, keyed by its hash.
    pub fn register_key(
        &mut self,
        plaintext: &str,
        owner: &str,
        roles: Vec<String>,
        expires_at: Option<i64>,
        now: i64,
    )
        requires
            old(self).wf(),
        ensures
            final(self).wf(),
            value_of(final(self)@, hash_spec(plaintext@)) matches Some(r) && r.owner@ == owner@
                && r.roles == roles && r.created_at == now && r.expires_at == expires_at
                && !r.revoked,
            forall|h: Seq<char>|
                h != hash_spec(plaintext@) ==> value_of(final(self)@, h) == value_of(old(self)@, h),
    {
        let record = KeyRecord {
            owner: owner.to_owned(),
            roles,
            created_at: now,
            expires_at,
            revoked: false,
        };
        self.records.insert(hash_key(plaintext), record);
    }

    /// Issues a key for `owner` and returns its plaintext, `ows_` and two
    /// random UUIDs; only its hash is kept.
    pub fn issue(&mut self, owner: &str, roles: Vec<String>, expires_at: Option<i64>, now: i64) -> (r:
        String)
        requires
            old(self).wf(),
        ensures
            final(self).wf(),
            r@.len() == 68,
            r@.subrange(0, 4) == "ows_"@,
            forall|i: int| 4 <= i < 68 ==> crate::text::is_lower_hex_digit(#[trigger] r@[i]),
            value_of(final(self)@, hash_spec(r@)) matches Some(rec) && rec.owner@ == owner@
                && rec.roles == roles && rec.created_at == now && rec.expires_at == expires_at
                && !rec.revoked,
            forall|h: Seq<char>|
                h != hash_spec(r@) ==> value_of(final(self)@, h) == value_of(old(self)@, h),
    {
        let mut key = String::new();
        push_str(&mut key, "ows_");
        let a = random_uuid_simple();
        let b = random_uuid_simple();
        push_str(&mut key, a.as_str());
        push_str(&mut key, b.as_str());
        proof {
            reveal_strlit("ows_");
            assert(key@.subrange(0, 4) =~= "ows_"@);
            assert forall|i: int| 4 <= i < 68 implies crate::text::is_lower_hex_digit(#[trigger] key@[i]) by {
                if i < 36 {
                    assert(key@[i] == a@[i - 4]);
                } else {
                    assert(key@[i] == b@[i - 36]);
                }
            }
        }
        self.register_key(key.as_str(), owner, roles, expires_at, now);
        key
    }

    /// Revokes every key of `owner`; returns how many were live.
    pub fn revoke_owner(&mut self, owner: &str) -> (n: usize)
        requires
            old(self).wf(),
        ensures
            final(self).wf(),
            n == live_of_owner(old(self)@, owner@),
            final(self)@ == revoked_all(old(self)@, owner@),
            final(self)@.len() == old(self)@.len(),
            forall|i: int|
                0 <= i < final(self)@.len() ==> (#[trigger] final(self)@[i]).0 == old(self)@[i].0
                    && final(self)@[i].1 == revoked_if_owner(old(self)@[i].1, owner@),
    {
        let mut n: usize = 0;
        let mut i: usize = 0;
        while i < self.records.len()
            invariant
                self.wf(),
                i <= self@.len(),
                self@.len() == old(self)@.len(),
                n == live_of_owner(old(self)@.take(i as int), owner@),
                n <= i,
                forall|k: int|
                    0 <= k < i ==> (#[trigger] self@[k]).0 == old(self)@[k].0 && self@[k].1
                        == revoked_if_owner(old(self)@[k].1, owner@),
                forall|k: int| i <= k < self@.len() ==> #[trigger] self@[k] == old(self)@[k],
            decreases old(self)@.len() - i,
        {
            let (_, rec) = self.records.entry(i);
            proof {
                assert(old(self)@.take(i + 1).drop_last() =~= old(self)@.take(i as int));
                assert(old(self)@.take(i + 1).last() == old(self)@[i as int]);
            }
            if crate::text::str_eq(rec.owner.as_str(), owner) {
                let was_live = !rec.revoked;
                let placeholder = KeyRecord {
                    owner: String::new(),
                    roles: Vec::new(),
                    created_at: 0,
                    expires_at: None,
                    revoked: true,
                };
                let prev = self.records.update_at(i, placeholder);
                let updated = KeyRecord { revoked: true, ..prev };
                let ghost before = self@;
                let _ = self.records.update_at(i, updated);
                proof {
                    assert(updated == revoked_if_owner(old(self)@[i as int].1, owner@));
                    assert forall|k: int| 0 <= k < self@.len() && k != i implies #[trigger] self@[k]
                        == before[k] by {}
                }
                if was_live {
                    n = n + 1;
                }
            }
            i += 1;
        }
        assert(old(self)@.take(i as int) =~= old(self)@);
        assert(self@ =~= revoked_all(old(self)@, owner@));
        n
    }

    /// Number of keys not revoked.
    pub fn active_key_count(&self) -> (n: usize)
        ensures
            n == live_count(self@),
    {
        let mut n: usize = 0;
        let mut i: usize = 0;
        while i < self.records.len()
            invariant
                i <= self@.len(),
                n == live_count(self@.take(i as int)),
                n <= i,
            decreases self@.len() - i,
        {
            let (_, rec) = self.records.entry(i);
            proof {
                assert(self@.take(i + 1).drop_last() =~= self@.take(i as int));
            }
            if !rec.revoked {
                n = n + 1;
            }
            i += 1;
        }
        assert(self@.take(i as int) =~= self@);
        n
    }

    /// What the records say of `key` at `now` (Unix milliseconds). An
    /// expired key is removed on the way.
    pub fn lookup(&mut self, key: &str, now: i64) -> (r: KeyLookup)
        requires
            old(self).wf(),
        ensures
            final(self).wf(),
            old(self)@.len() == 0 ==> r == KeyLookup::RegistryEmpty && final(self)@ == old(self)@,
            old(self)@.len() > 0 ==> match value_of(old(self)@, hash_spec(key@)) {
                None => r == KeyLookup::Rejected && final(self)@ == old(self)@,
                Some(rec) => if rec.expires_at matches Some(e) && now >= e {
                    &&& r == KeyLookup::Rejected
                    &&& value_of(final(self)@, hash_spec(key@)) is None
                    &&& forall|h: Seq<char>|
                        h != hash_spec(key@) ==> value_of(final(self)@, h) == value_of(
                            old(self)@,
                            h,
                        )
                } else if rec.revoked {
                    r == KeyLookup::Rejected && final(self)@ == old(self)@
                } else {
                    &&& r matches KeyLookup::Active { owner, roles } && owner == rec.owner
                        && roles@ == rec.roles@
                    &&& final(self)@ == old(self)@
                },
            },
    {
        if self.records.len() == 0 {
            return KeyLookup::RegistryEmpty;
        }
        let hashed = hash_key(key);
        let expired = match self.records.get(hashed.as_str()) {
            None => return KeyLookup::Rejected,
            Some(rec) => match rec.expires_at {
                Some(e) => now >= e,
                None => false,
            },
        };
        if expired {
            let _ = self.records.remove(hashed.as_str());
            return KeyLookup::Rejected;
        }
        match self.records.get(hashed.as_str()) {
            None => KeyLookup::Rejected,
            Some(rec) => if rec.revoked {
                KeyLookup::Rejected
            } else {
                KeyLookup::Active { owner: rec.owner.clone(), roles: clone_strings(&rec.roles) }
            },
        }
    }
}

/// The verification result of a presented key from what the records say of
/// it and whether the request-rate guard holds the key suspended (a
/// suspension only concerns keys that are otherwise valid).
pub fn key_decision(lookup: KeyLookup, suspended: bool) -> (r: KeyDecision)
    ensures
        lookup is RegistryEmpty ==> r is RegistryEmpty,
        lookup is Rejected ==> r is Rejected,
        lookup matches KeyLookup::Active { owner, roles } ==> if suspended {
            r is Suspended
        } else {
            r == KeyDecision::Valid { owner, roles }
        },
{
    match lookup {
        KeyLookup::RegistryEmpty => KeyDecision::RegistryEmpty,
        KeyLookup::Rejected => KeyDecision::Rejected,
        KeyLookup::Active { owner, roles } => if suspended {
            KeyDecision::Suspended
        } else {
            KeyDecision::Valid { owner, roles }
        },
    }
}

/// The registry after every key of `owner` is revoked.
pub open spec fn revoked_all(s: Seq<(Seq<char>, KeyRecord)>, owner: Seq<char>) -> Seq<(Seq<char>, KeyRecord)> {
    s.map_values(|e: (Seq<char>, KeyRecord)| (e.0, revoked_if_owner(e.1, owner)))
}

/// After every key of an owner is revoked, each stored key of that owner
/// is marked revoked (so that looking it up is refused), and every other
/// record is unchanged.
pub proof fn law_revoked_keys_are_refused(s: Seq<(Seq<char>, KeyRecord)>, owner: Seq<char>, h: Seq<char>)
    requires
        keys_unique(s),
    ensures
        keys_unique(revoked_all(s, owner)),
        value_of(revoked_all(s, owner), h) == match value_of(s, h) {
            Some(r) => Some(revoked_if_owner(r, owner)),
            None => None,
        },
        value_of(s, h) matches Some(r) && r.owner@ == owner ==> (value_of(revoked_all(s, owner), h) matches Some(
            r2,
        ) && r2.revoked),
{
    let t = revoked_all(s, owner);
    assert forall|i: int, j: int|
        0 <= i < t.len() && 0 <= j < t.len() && i != j implies (#[trigger] t[i]).0 != (#[trigger] t[j]).0 by {
        assert(t[i].0 == s[i].0 && t[j].0 == s[j].0);
    }
    if has_key(s, h) {
        let i = choose|i: int| 0 <= i < s.len() && (#[trigger] s[i]).0 == h;
        crate::keyed::lemma_value_at(s, i);
        assert(t[i].0 == h);
        crate::keyed::lemma_value_at(t, i);
    } else {
        assert(!has_key(t, h)) by {
            if has_key(t, h) {
                let i = choose|i: int| 0 <= i < t.len() && (#[trigger] t[i]).0 == h;
                assert(s[i].0 == h);
            }
        }
    }
}

// ---------------------------------------------------------------------------
// Administration requests
// ---------------------------------------------------------------------------

/// Body of a key issuance request.
#[derive(Debug, Clone)]
pub struct IssueKeyRequest {
    pub owner: String,
    pub roles: Vec<String>,
    /// Seconds until the key expires (none: never).
    pub expires_in_secs: Option<i64>,
}

/// Answer to a key issuance: the plaintext key, shown this once only.
#[derive(Debug, Clone)]
pub struct IssueKeyResponse {
    pub key: String,
    pub owner: String,
    pub roles: Vec<String>,
}

/// Body of a request revoking every key of an owner.
#[derive(Debug, Clone)]
pub struct RevokeOwnerRequest {
    pub owner: String,
}

/// Answer to a revocation: how many live keys were revoked.
#[derive(Debug, Clone)]
pub struct RevokeOwnerResponse {
    pub owner: String,
    pub revoked_count: usize,
}

/// Answer to a key status request: only the number of live keys (the
/// plaintexts are never kept).
#[derive(Debug, Clone, Copy, PartialEq, Eq, Structural)]
pub struct KeyStatusResponse {
    pub active_key_count: usize,
}

/// The expiry, in Unix milliseconds, of a key issued at `now_ms` to live
/// `secs` seconds.
pub open spec fn expiry_ms(now_ms: i64, expires_in_secs: Option<i64>) -> Option<i64> {
    match expires_in_secs {
        Some(s) => Some((now_ms + s * 1000) as i64),
        None => None,
    }
}

/// Whether a lifetime of `expires_in_secs` seconds, and the expiry it
/// gives from `now_ms`, are representable in milliseconds.
pub open spec fn expiry_in_range(now_ms: i64, expires_in_secs: Option<i64>) -> bool {
    expires_in_secs matches Some(s) ==> i64::MIN <= s * 1000 <= i64::MAX && i64::MIN <= now_ms + s
        * 1000 <= i64::MAX
}

/// Issues a key at `now_ms` (Unix milliseconds) for a request: refused
/// with `owner must not be empty` when the owner is blank; otherwise the
/// key, its owner and roles, the key stored with the requested expiry.
pub fn issue_key(registry: &mut KeyRegistry, body: IssueKeyRequest, now_ms: i64) -> (r: Result<
    IssueKeyResponse,
    String,
>)
    requires
        old(registry).wf(),
        expiry_in_range(now_ms, body.expires_in_secs),
    ensures
        final(registry).wf(),
        trim(body.owner@).len() == 0 ==> (r matches Err(m) && m@ == "owner must not be empty"@)
            && final(registry)@ == old(registry)@,
        trim(body.owner@).len() > 0 ==> (r matches Ok(resp) && resp.owner == body.owner
            && resp.roles@ == body.roles@ && resp.key@.subrange(0, 4) == "ows_"@ && (value_of(
            final(registry)@,
            hash_spec(resp.key@),
        ) matches Some(rec) && rec.owner@ == body.owner@ && rec.roles@ == body.roles@
            && rec.created_at == now_ms && rec.expires_at == expiry_ms(now_ms, body.expires_in_secs)
            && !rec.revoked) && forall|h: Seq<char>|
            h != hash_spec(resp.key@) ==> value_of(final(registry)@, h) == value_of(
                old(registry)@,
                h,
            )),
{
    let cv = crate::text::chars_of(body.owner.as_str());
    proof {
        assert(cv@.subrange(0, cv@.len() as int) =~= cv@);
    }
    let (a, b) = crate::text::trim_range(&cv, 0, cv.len());
    if a == b {
        let mut m = String::new();
        push_str(&mut m, "owner must not be empty");
        return Err(m);
    }
    let expires_at: Option<i64> = match body.expires_in_secs {
        Some(s) => Some(now_ms + s * 1000),
        None => None,
    };
    let roles = clone_strings(&body.roles);
    let key = registry.issue(body.owner.as_str(), roles, expires_at, now_ms);
    Ok(IssueKeyResponse { key, owner: body.owner, roles: body.roles })
}

/// Revokes every key of the requested owner.
pub fn revoke_owner_request(registry: &mut KeyRegistry, body: RevokeOwnerRequest) -> (r:
    RevokeOwnerResponse)
    requires
        old(registry).wf(),
    ensures
        final(registry).wf(),
        r.owner == body.owner,
        r.revoked_count == live_of_owner(old(registry)@, body.owner@),
        final(registry)@.len() == old(registry)@.len(),
        forall|i: int|
            0 <= i < final(registry)@.len() ==> (#[trigger] final(registry)@[i]).0 == old(
                registry,
            )@[i].0 && final(registry)@[i].1 == revoked_if_owner(old(registry)@[i].1, body.owner@),
{
    let n = registry.revoke_owner(body.owner.as_str());
    RevokeOwnerResponse { owner: body.owner, revoked_count: n }
}

/// The number of live keys.
pub fn key_status(registry: &KeyRegistry) -> (r: KeyStatusResponse)
    ensures
        r.active_key_count == live_count(registry@),
{
    KeyStatusResponse { active_key_count: registry.active_key_count() }
}

} // verus!
