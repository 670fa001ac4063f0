//! Decisions of the administration API: who may call it, and how its
//! paths and headers are read.

use vstd::prelude::*;
use crate::text::{chars_of, split_char, split_ranges, str_eq, str_starts_with, strip_prefix, substring};
use crate::keyring::KeyDecision;
use crate::two_factor::{constant_time_eq, ct_eq_spec, encode_utf8_of};

verus! {

/// The token of an `Authorization: Bearer <token>` header value.
pub open spec fn bearer_token(header: Option<Seq<char>>) -> Option<Seq<char>> {
    match header {
        Some(h) => strip_prefix(h, "Bearer "@),
        None => None,
    }
}

/// Reads the key out of an `Authorization` header value.
pub fn extract_bearer(header_value: Option<&str>) -> (r: Option<String>)
    ensures
        match r {
            Some(t) => bearer_token(match header_value {
                Some(h) => Some(h@),
                None => None,
            }) == Some(t@),
            None => bearer_token(match header_value {
                Some(h) => Some(h@),
                None => None,
            }) is None,
        },
{
    match header_value {
        None => None,
        Some(h) => {
            let prefix = "Bearer ";
            if !str_starts_with(h, prefix) {
                return None;
            }
            let v = chars_of(h);
            let n = prefix.unicode_len();
            assert(h@.skip(n as int) =~= v@.subrange(n as int, v@.len() as int));
            Some(substring(&v, n, v.len()))
        },
    }
}

/// Whether a key with these roles may use the whole administration API:
/// keys without roles (as issued before roles existed) and keys holding
/// `admin`.
pub open spec fn grants_admin(roles: Seq<Seq<char>>) -> bool {
    roles.len() == 0 || exists|i: int| 0 <= i < roles.len() && roles[i] == "admin"@
}

/// `grants_admin` over a list of role names.
pub fn key_grants_admin_access(roles: &[String]) -> (b: bool)
    ensures
        b == grants_admin(roles@.map_values(|r: String| r@)),
{
    let ghost rv = roles@.map_values(|r: String| r@);
    if roles.len() == 0 {
        return true;
    }
    let mut i: usize = 0;
    while i < roles.len()
        invariant
            i <= roles@.len(),
            rv == roles@.map_values(|r: String| r@),
            forall|k: int| 0 <= k < i ==> rv[k] != "admin"@,
        decreases roles.len() - i,
    {
        if str_eq(roles[i].as_str(), "admin") {
            assert(rv[i as int] == "admin"@);
            return true;
        }
        i += 1;
    }
    false
}

/// Whether the shared administration secret lets the request in: always
/// when no secret is configured, else when the presented token equals it
/// (compared in constant time).
pub open spec fn static_auth_ok(expected: Option<Seq<char>>, provided: Option<Seq<char>>) -> bool {
    match expected {
        None => true,
        Some(e) => match provided {
            Some(p) => ct_eq_spec(encode_utf8_of(p), encode_utf8_of(e)),
            None => false,
        },
    }
}

/// Checks the shared secret header against the configured secret.
pub fn static_admin_auth_ok(expected: Option<&str>, provided: Option<&str>) -> (b: bool)
    ensures
        b == static_auth_ok(
            match expected {
                Some(e) => Some(e@),
                None => None,
            },
            match provided {
                Some(p) => Some(p@),
                None => None,
            },
        ),
{
    match expected {
        None => true,
        Some(e) => match provided {
            Some(p) => constant_time_eq(p, e),
            None => false,
        },
    }
}

/// What the key registry said of the presented key, reduced to what the
/// administration check needs.
#[derive(Debug, Clone, PartialEq, Eq)]
pub enum KeyCheck {
    /// A valid key whose roles grant full access.
    AdminKey,
    /// A valid key whose roles do not grant full access.
    RestrictedKey,
    /// The key is suspended; `override_valid` tells whether its owner has
    /// passed the second factor recently.
    Suspended { override_valid: bool },
    /// No key, an unknown or revoked key, or an empty registry.
    NoKey,
}

/// What the administration check needs of a key verification result:
/// whether its roles grant full access, and, for a suspended key, whether
/// its owner holds a valid second-factor override.
pub fn key_check(decision: &KeyDecision, override_valid: bool) -> (r: KeyCheck)
    ensures
        r == match decision {
            KeyDecision::Valid { roles, .. } => if grants_admin(roles@.map_values(|x: String| x@)) {
                KeyCheck::AdminKey
            } else {
                KeyCheck::RestrictedKey
            },
            KeyDecision::Suspended => KeyCheck::Suspended { override_valid },
            _ => KeyCheck::NoKey,
        },
{
    match decision {
        KeyDecision::Valid { roles, .. } => if key_grants_admin_access(roles.as_slice()) {
            KeyCheck::AdminKey
        } else {
            KeyCheck::RestrictedKey
        },
        KeyDecision::Suspended => KeyCheck::Suspended { override_valid },
        _ => KeyCheck::NoKey,
    }
}

/// Outcome of the administration check.
#[derive(Debug, Clone, Copy, PartialEq, Eq, Structural)]
pub enum AdminAuth {
    /// Let the request in.
    Allowed,
    /// 403: the source address is not on the allowlist.
    ForbiddenAddress,
    /// 429: the key is suspended.
    Suspended,
    /// 401: neither a key nor the shared secret lets the request in.
    Unauthorized,
}

/// The administration check: the source address allowlist first (when
/// one is configured), then the key, then the shared secret.
pub fn admin_auth(address_allowed: Option<bool>, key: &KeyCheck, static_ok: bool) -> (r: AdminAuth)
    ensures
        address_allowed == Some(false) ==> r == AdminAuth::ForbiddenAddress,
        address_allowed != Some(false) ==> r == match key {
            KeyCheck::AdminKey => AdminAuth::Allowed,
            KeyCheck::Suspended { override_valid } => if *override_valid {
                AdminAuth::Allowed
            } else {
                AdminAuth::Suspended
            },
            _ => if static_ok {
                AdminAuth::Allowed
            } else {
                AdminAuth::Unauthorized
            },
        },
{
    if let Some(false) = address_allowed {
        return AdminAuth::ForbiddenAddress;
    }
    match key {
        KeyCheck::AdminKey => AdminAuth::Allowed,
        KeyCheck::Suspended { override_valid } => if *override_valid {
            AdminAuth::Allowed
        } else {
            AdminAuth::Suspended
        },
        _ => if static_ok {
            AdminAuth::Allowed
        } else {
            AdminAuth::Unauthorized
        },
    }
}

/// The parts of `/internal/db/state/:target/:key/at/:commit_id`.
#[derive(Debug, Clone)]
pub struct ParsedPath {
    pub target: String,
    pub key: String,
    pub commit_id: String,
}

/// The segments after the state-query prefix, when the path has it.
pub open spec fn state_query_segments(path: Seq<char>) -> Option<Seq<Seq<char>>> {
    match strip_prefix(path, "/internal/db/state/"@) {
        Some(rest) => Some(split_char(rest, '/')),
        None => None,
    }
}

/// Whether the segments are `target / key / at / commit_id`, none empty.
pub open spec fn state_query_ok(segs: Seq<Seq<char>>) -> bool {
    segs.len() == 4 && segs[2] == "at"@ && segs[0].len() > 0 && segs[1].len() > 0 && segs[3].len()
        > 0
}

/// Reads a state query path; `None` unless it has exactly the four
/// segments with `at` third and no empty one.
pub fn parse_path(path: &str) -> (r: Option<ParsedPath>)
    ensures
        match state_query_segments(path@) {
            Some(segs) => if state_query_ok(segs) {
                r matches Some(p) && p.target@ == segs[0] && p.key@ == segs[1] && p.commit_id@
                    == segs[3]
            } else {
                r is None
            },
            None => r is None,
        },
{
    let prefix = "/internal/db/state/";
    if !str_starts_with(path, prefix) {
        return None;
    }
    let v = chars_of(path);
    let n = prefix.unicode_len();
    let rest = substring(&v, n, v.len());
    assert(path@.skip(n as int) =~= rest@);
    let rv = chars_of(rest.as_str());
    let segs = split_ranges(&rv, '/');
    let ghost ss = split_char(rv@, '/');
    if segs.len() != 4 {
        return None;
    }
    let (a0, b0) = segs[0];
    let (a1, b1) = segs[1];
    let (a2, b2) = segs[2];
    let (a3, b3) = segs[3];
    let at = substring(&rv, a2, b2);
    if !str_eq(at.as_str(), "at") {
        return None;
    }
    if a0 == b0 || a1 == b1 || a3 == b3 {
        return None;
    }
    Some(
        ParsedPath {
            target: substring(&rv, a0, b0),
            key: substring(&rv, a1, b1),
            commit_id: substring(&rv, a3, b3),
        },
    )
}


/// The state-query path of a target, key and commit.
pub open spec fn state_query_path(t: Seq<char>, k: Seq<char>, c: Seq<char>) -> Seq<char> {
    "/internal/db/state/"@ + t + "/"@ + k + "/at/"@ + c
}

/// A path segment: not empty and without `/`.
pub open spec fn is_segment(s: Seq<char>) -> bool {
    s.len() > 0 && forall|i: int| 0 <= i < s.len() ==> s[i] != '/'
}

/// A state-query path is read back as its target, key and commit: for
/// segments `t`, `k`, `c`, the path `/internal/db/state/t/k/at/c` has
/// exactly the segments `t`, `k`, `at`, `c`, which `parse_path` accepts
/// and hands back in `target`, `key` and `commit_id`.
pub proof fn law_state_query_path_round_trip(t: Seq<char>, k: Seq<char>, c: Seq<char>)
    requires
        is_segment(t),
        is_segment(k),
        is_segment(c),
    ensures
        state_query_segments(state_query_path(t, k, c)) == Some(seq![t, k, "at"@, c]),
        state_query_ok(seq![t, k, "at"@, c]),
{
    reveal_strlit("/internal/db/state/");
    reveal_strlit("/");
    reveal_strlit("/at/");
    reveal_strlit("at");
    let prefix = "/internal/db/state/"@;
    let p = state_query_path(t, k, c);
    let rest = t + seq!['/'] + (k + seq!['/'] + ("at"@ + seq!['/'] + c));
    assert(p =~= prefix + rest);
    assert(p.subrange(0, prefix.len() as int) =~= prefix);
    assert(p.skip(prefix.len() as int) =~= rest);
    crate::text::lemma_split_char_single(c, '/');
    crate::text::lemma_split_char_cons("at"@, '/', c);
    crate::text::lemma_split_char_cons(k, '/', "at"@ + seq!['/'] + c);
    crate::text::lemma_split_char_cons(t, '/', k + seq!['/'] + ("at"@ + seq!['/'] + c));
    assert(split_char(rest, '/') =~= seq![t, k, "at"@, c]);
}


/// The target, key and commit of a state-query path, when it is one.
pub open spec fn parse_path_spec(path: Seq<char>) -> Option<(Seq<char>, Seq<char>, Seq<char>)> {
    match state_query_segments(path) {
        Some(segs) => if state_query_ok(segs) {
            Some((segs[0], segs[1], segs[3]))
        } else {
            None
        },
        None => None,
    }
}

/// The answer to a state query.
#[derive(Debug, Clone)]
pub enum StateQueryReply {
    /// 200 with the value as of the commit.
    Found(crate::mutation::DbStateAtCommitResponse),
    /// A plain-text answer with this status.
    Text(u16, String),
}

/// The answer to a path that is not a state query (400).
pub open spec fn state_query_usage() -> Seq<char> {
    "expected /internal/db/state/:target/:key/at/:commit_id"@
}

/// The answer to a state query at `path`, from what the read of the
/// store gave (`None` when the path is not a state query, so nothing is
/// read): 400 for a path that is not one; the value when the store has
/// one; 404 naming the target, key and commit when it has none; 502 with
/// the failure of the read.
pub fn state_query_reply(
    path: &str,
    read: Option<Result<Option<crate::mutation::DbStateAtCommitResponse>, String>>,
) -> (r: StateQueryReply)
    requires
        (parse_path_spec(path@) is Some) == (read is Some),
    ensures
        match parse_path_spec(path@) {
            None => r matches StateQueryReply::Text(st, m) && st == 400 && m@ == state_query_usage(),
            Some((t, k, c)) => match read {
                Some(Ok(Some(v))) => r matches StateQueryReply::Found(w) && w.target == v.target
                    && w.key == v.key && w.commit_id == v.commit_id && w.value == v.value,
                Some(Ok(None)) => r matches StateQueryReply::Text(st, m) && st == 404 && m@ == "no value for "@
                    + t + "/"@ + k + " as of commit "@ + c
                    + " (commit unknown, or the key did not exist yet at that point)"@,
                Some(Err(e)) => r matches StateQueryReply::Text(st, m) && st == 502 && m@
                    == "open-runo request failed: "@ + e@,
                None => false,
            },
        },
{
    let parsed = parse_path(path);
    match parsed {
        None => {
            let mut m = String::new();
            crate::text::push_str(&mut m, "expected /internal/db/state/:target/:key/at/:commit_id");
            StateQueryReply::Text(400, m)
        },
        Some(p) => match read {
            Some(Ok(Some(v))) => StateQueryReply::Found(v),
            Some(Ok(None)) => {
                let mut m = String::new();
                crate::text::push_str(&mut m, "no value for ");
                crate::text::push_str(&mut m, p.target.as_str());
                crate::text::push_str(&mut m, "/");
                crate::text::push_str(&mut m, p.key.as_str());
                crate::text::push_str(&mut m, " as of commit ");
                crate::text::push_str(&mut m, p.commit_id.as_str());
                crate::text::push_str(&mut m, " (commit unknown, or the key did not exist yet at that point)");
                StateQueryReply::Text(404, m)
            },
            Some(Err(e)) => {
                let mut m = String::new();
                crate::text::push_str(&mut m, "open-runo request failed: ");
                crate::text::push_str(&mut m, e.as_str());
                StateQueryReply::Text(502, m)
            },
            None => StateQueryReply::Text(400, String::new()),
        },
    }
}

/// Only state-query paths are read: a path that `parse_path` accepts is
/// `/internal/db/state/t/k/at/c` for the segments `t`, `k`, `c` it hands
/// back.
pub proof fn law_parsed_path_is_state_query_path(path: Seq<char>)
    ensures
        parse_path_spec(path) matches Some((t, k, c)) ==> path == state_query_path(t, k, c) && is_segment(t)
            && is_segment(k) && is_segment(c),
{
    reveal_strlit("/internal/db/state/");
    reveal_strlit("/");
    reveal_strlit("/at/");
    reveal_strlit("at");
    if parse_path_spec(path) is Some {
        let prefix = "/internal/db/state/"@;
        let rest = path.skip(prefix.len() as int);
        let segs = split_char(rest, '/');
        crate::text::lemma_split_char_parts(rest, '/');
        assert(segs.len() == 4);
        let (t, k, c) = (segs[0], segs[1], segs[3]);
        assert(segs.drop_first().drop_first().drop_first() =~= seq![c]);
        assert(segs.drop_first().drop_first()[0] == segs[2]);
        assert(segs.drop_first()[0] == segs[1]);
        let s1 = segs.drop_first();
        let s2 = s1.drop_first();
        let s3 = s2.drop_first();
        assert(crate::text::join_with(s3, '/') == c);
        assert(crate::text::join_with(s2, '/') == segs[2] + seq!['/'] + c);
        assert(crate::text::join_with(s1, '/') == k + seq!['/'] + (segs[2] + seq!['/'] + c));
        assert(crate::text::join_with(segs, '/') == t + seq!['/'] + (k + seq!['/'] + (segs[2] + seq!['/']
            + c)));
        assert(rest =~= t + seq!['/'] + (k + seq!['/'] + (segs[2] + seq!['/'] + c)));
        assert(path =~= prefix + rest);
        assert(path =~= state_query_path(t, k, c));
        assert forall|i: int| 0 <= i < t.len() implies t[i] != '/' by {
            assert(segs[0][i] != '/');
        }
        assert forall|i: int| 0 <= i < k.len() implies k[i] != '/' by {
            assert(segs[1][i] != '/');
        }
        assert forall|i: int| 0 <= i < c.len() implies c[i] != '/' by {
            assert(segs[3][i] != '/');
        }
    }
}

} // verus!
