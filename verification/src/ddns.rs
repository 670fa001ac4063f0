//! Dynamic DNS: when the public address changes, call the configured
//! update URL (or DuckDNS) with the new address.
//!
//! The periodic loop, the address lookups and the HTTP calls belong to
//! the program around the library; the library builds the URLs and makes
//! the decisions.

use vstd::prelude::*;
use vstd::utf8::encode_utf8;
use crate::encoding::{percent_encode, urlencoding_lite};
use crate::text::{
    chars_of, contains, decimal_digits, occurs_at, occurs_at_exec, push_char, push_str, starts_with,
    str_contains, str_eq, trim, trim_start, trim_range, trim_start_range, u64_to_decimal,
};

verus! {

/// `s` with every occurrence of the non-empty `pat`, scanned from the
/// left without overlaps, replaced by `rep` (`str::replace`).
pub open spec fn replace_all(s: Seq<char>, pat: Seq<char>, rep: Seq<char>) -> Seq<char>
    decreases s.len(),
{
    if s.len() == 0 {
        s
    } else if pat.len() > 0 && pat.len() <= s.len() && s.subrange(0, pat.len() as int) == pat {
        rep + replace_all(s.skip(pat.len() as int), pat, rep)
    } else {
        seq![s[0]] + replace_all(s.drop_first(), pat, rep)
    }
}

/// `str::replace` with a non-empty pattern.
pub fn replace_str(s: &str, pat: &str, rep: &str) -> (r: String)
    requires
        pat@.len() > 0,
    ensures
        r@ == replace_all(s@, pat@, rep@),
{
    let v = chars_of(s);
    let p = chars_of(pat);
    let mut out = String::new();
    let mut i: usize = 0;
    assert(v@.skip(0) =~= v@);
    assert(out@ + replace_all(v@, p@, rep@) =~= replace_all(v@, p@, rep@));
    while i < v.len()
        invariant
            i <= v@.len(),
            v@ == s@,
            p@ == pat@,
            p@.len() > 0,
            out@ + replace_all(v@.skip(i as int), p@, rep@) == replace_all(v@, p@, rep@),
        decreases v.len() - i,
    {
        let ghost rest = v@.skip(i as int);
        let ghost before = out@;
        if occurs_at_exec(&v, &p, i) {
            proof {
                assert(rest.subrange(0, p@.len() as int) =~= v@.subrange(i as int, i + p@.len()));
                assert(rest.skip(p@.len() as int) =~= v@.skip(i + p@.len()));
            }
            push_str(&mut out, rep);
            proof {
                assert(out@ + replace_all(v@.skip(i + p@.len()), p@, rep@) =~= before + (rep@
                    + replace_all(rest.skip(p@.len() as int), p@, rep@)));
            }
            i += p.len();
        } else {
            proof {
                if p@.len() <= rest.len() {
                    assert(rest.subrange(0, p@.len() as int) =~= v@.subrange(i as int, i + p@.len()));
                }
                assert(rest.drop_first() =~= v@.skip(i + 1));
                assert(rest[0] == v@[i as int]);
            }
            push_char(&mut out, v[i]);
            proof {
                assert(out@ + replace_all(v@.skip(i + 1), p@, rep@) =~= before + (seq![v@[i as int]]
                    + replace_all(rest.drop_first(), p@, rep@)));
            }
            i += 1;
        }
    }
    proof {
        assert(v@.skip(i as int) =~= Seq::<char>::empty());
        assert(out@ + Seq::<char>::empty() =~= out@);
    }
    out
}

/// Whether an update URL template can be used: it must hold `{ip}`.
pub fn template_is_usable(template: &str) -> (b: bool)
    ensures
        b == contains(template@, "{ip}"@),
{
    str_contains(template, "{ip}")
}

/// The update URL: the template with every `{ip}` replaced by `ip`.
pub fn ddns_update_url(template: &str, ip: &str) -> (r: String)
    ensures
        r@ == replace_all(template@, "{ip}"@, ip@),
{
    proof {
        reveal_strlit("{ip}");
    }
    replace_str(template, "{ip}", ip)
}

/// Whether an update is due: the address differs from the last one that
/// was published successfully (or none was).
pub fn ip_changed(last_published: Option<&str>, current: &str) -> (b: bool)
    ensures
        b == match last_published {
            Some(l) => l@ != current@,
            None => true,
        },
{
    match last_published {
        Some(l) => !str_eq(l, current),
        None => true,
    }
}

/// Health of the update loop from the time of its last tick (0: the loop
/// never ran, which is healthy since the feature is off) and the current
/// time: healthy when the last tick is under ten minutes old; also the
/// seconds since it.
pub fn heartbeat_status(last_tick_unix: u64, now_unix: u64) -> (r: (bool, u64))
    ensures
        last_tick_unix == 0 ==> r == (true, 0u64),
        last_tick_unix != 0 ==> r.1 == (if now_unix >= last_tick_unix {
            (now_unix - last_tick_unix) as u64
        } else {
            0u64
        }) && r.0 == (r.1 < 600),
{
    if last_tick_unix == 0 {
        return (true, 0);
    }
    let elapsed = now_unix.saturating_sub(last_tick_unix);
    (elapsed < 600, elapsed)
}

/// The DuckDNS update URL for `domain` and `token`, with `ip` when given
/// (without it DuckDNS uses the caller's address).
pub open spec fn duckdns_url_spec(domain: Seq<char>, token: Seq<char>, ip: Option<Seq<char>>) -> Seq<
    char,
> {
    let base = "https://www.duckdns.org/update?domains="@ + percent_encode(encode_utf8(domain))
        + "&token="@ + percent_encode(encode_utf8(token));
    match ip {
        Some(a) => base + "&ip="@ + percent_encode(encode_utf8(a)),
        None => base,
    }
}

/// Builds the DuckDNS update URL.
pub fn duckdns_update_url(domain: &str, token: &str, ip: Option<&str>) -> (r: String)
    ensures
        r@ == duckdns_url_spec(
            domain@,
            token@,
            match ip {
                Some(a) => Some(a@),
                None => None,
            },
        ),
{
    let mut url = String::new();
    push_str(&mut url, "https://www.duckdns.org/update?domains=");
    let d = urlencoding_lite(domain);
    push_str(&mut url, d.as_str());
    push_str(&mut url, "&token=");
    let t = urlencoding_lite(token);
    push_str(&mut url, t.as_str());
    match ip {
        Some(a) => {
            push_str(&mut url, "&ip=");
            let e = urlencoding_lite(a);
            push_str(&mut url, e.as_str());
        },
        None => {},
    }
    url
}

/// Whether a DuckDNS answer reports success: after leading whitespace it
/// starts with `OK`.
pub fn duckdns_response_ok(body: &str) -> (b: bool)
    ensures
        b == starts_with(trim_start(body@), "OK"@),
{
    let v = chars_of(body);
    proof {
        assert(v@.subrange(0, v@.len() as int) =~= v@);
    }
    let a = trim_start_range(&v, 0, v.len());
    let ok = chars_of("OK");
    crate::text::starts_with_range(&v, a, v.len(), &ok)
}

/// Whether the DuckDNS settings can be used: neither is blank.
pub fn duckdns_settings_usable(domain: &str, token: &str) -> (b: bool)
    ensures
        b == (trim(domain@).len() > 0 && trim(token@).len() > 0),
{
    let dv = chars_of(domain);
    let tv = chars_of(token);
    proof {
        assert(dv@.subrange(0, dv@.len() as int) =~= dv@);
        assert(tv@.subrange(0, tv@.len() as int) =~= tv@);
    }
    let (a, b) = trim_range(&dv, 0, dv.len());
    let (c, d) = trim_range(&tv, 0, tv.len());
    a < b && c < d
}

/// Replacing `{ip}` in a template that does not hold it leaves it as it
/// is.
pub proof fn law_template_without_placeholder_is_unchanged(s: Seq<char>, pat: Seq<char>, rep: Seq<char>)
    requires
        pat.len() > 0,
        !contains(s, pat),
    ensures
        replace_all(s, pat, rep) == s,
    decreases s.len(),
{
    if s.len() > 0 {
        assert(!(pat.len() <= s.len() && s.subrange(0, pat.len() as int) == pat)) by {
            if pat.len() <= s.len() && s.subrange(0, pat.len() as int) == pat {
                assert(occurs_at(s, pat, 0));
            }
        }
        assert(!contains(s.drop_first(), pat)) by {
            if contains(s.drop_first(), pat) {
                let i = choose|i: int| occurs_at(s.drop_first(), pat, i);
                assert(s.subrange(i + 1, i + 1 + pat.len()) =~= s.drop_first().subrange(i, i + pat.len()));
                assert(occurs_at(s, pat, i + 1));
            }
        }
        law_template_without_placeholder_is_unchanged(s.drop_first(), pat, rep);
        assert(seq![s[0]] + s.drop_first() =~= s);
    }
}

/// What one DuckDNS update call answered: `OK` or `KO`, possibly followed
/// by a newline and the address.
#[derive(Debug, Clone)]
pub struct DuckDnsUpdateResult {
    pub ok: bool,
    pub raw_body: String,
}

/// The result of a DuckDNS update from the body it answered.
pub fn duckdns_update_result(body: String) -> (r: DuckDnsUpdateResult)
    ensures
        r.ok == starts_with(trim_start(body@), "OK"@),
        r.raw_body == body,
{
    let ok = duckdns_response_ok(body.as_str());
    DuckDnsUpdateResult { ok, raw_body: body }
}

/// Body of a request registering a DuckDNS domain.
#[derive(Debug, Clone)]
pub struct SetupFreeDomainRequest {
    /// The subdomain, without `.duckdns.org`.
    pub domain: String,
    /// The account token obtained on duckdns.org by the user.
    pub token: String,
}

/// Answer to a DuckDNS domain registration.
#[derive(Debug, Clone)]
pub struct SetupFreeDomainResponse {
    pub full_hostname: String,
    /// Whether the immediate update attempt succeeded.
    pub verified: bool,
    pub duckdns_raw_response: String,
    pub registered_count: usize,
    pub remaining_capacity: usize,
    pub message: String,
}

/// Checks a DuckDNS registration request: both fields must be non-blank,
/// else the request is refused (400) with the returned text.
pub fn check_free_domain_request(body: &SetupFreeDomainRequest) -> (r: Result<(), String>)
    ensures
        trim(body.domain@).len() > 0 && trim(body.token@).len() > 0 ==> r is Ok,
        !(trim(body.domain@).len() > 0 && trim(body.token@).len() > 0) ==> (r matches Err(m) && m@
            == "both 'domain' and 'token' must be non-empty"@),
{
    if duckdns_settings_usable(body.domain.as_str(), body.token.as_str()) {
        Ok(())
    } else {
        let mut m = String::new();
        push_str(&mut m, "both 'domain' and 'token' must be non-empty");
        Err(m)
    }
}

/// `name.duckdns.org`.
pub open spec fn duckdns_hostname(domain: Seq<char>) -> Seq<char> {
    domain + ".duckdns.org"@
}

/// The message of a registration whose update attempt succeeded.
pub open spec fn verified_message(host: Seq<char>, count: nat, capacity: nat, remaining: nat) -> Seq<char> {
    "疎通確認に成功しました。'"@ + host + "' は自動更新ループに登録されました(このインスタンスで現在"@
        + decimal_digits(count) + seq!['/'] + decimal_digits(capacity) + "件登録済み、残り"@
        + decimal_digits(remaining)
        + "件登録可能)。5分間隔でグローバルIPの変化を検知し、登録済み全ドメインを自動更新します。なお、DuckDNSアカウント/トークンの発行自体はduckdns.orgへのユーザー自身のログインが必要であり、本ソフトウェアはそれを代行しません。"@
}

/// The message of a registration whose update attempt DuckDNS refused.
pub open spec fn refused_message(host: Seq<char>, raw: Seq<char>) -> Seq<char> {
    "DuckDNS側が失敗を返しました('"@ + host
        + "')。トークンやサブドメイン名を再確認してください。生レスポンス: "@ + raw
        + "(登録自体は完了していますが、自動更新も同じ理由で失敗する可能性があります)"@
}

/// The answer to a registration of `domain` after its first update
/// attempt, with `registered_count` domains now registered out of
/// `capacity`: status 200 when DuckDNS accepted the update, 502 when it
/// refused it.
pub fn setup_free_domain_response(
    domain: &str,
    result: DuckDnsUpdateResult,
    registered_count: usize,
    capacity: usize,
) -> (r: (u16, SetupFreeDomainResponse))
    ensures
        r.0 == (if result.ok { 200u16 } else { 502u16 }),
        r.1.full_hostname@ == duckdns_hostname(domain@),
        r.1.verified == result.ok,
        r.1.duckdns_raw_response == result.raw_body,
        r.1.registered_count == registered_count,
        r.1.remaining_capacity == (if registered_count >= capacity { 0 } else { capacity - registered_count }),
        result.ok ==> r.1.message@ == verified_message(
            duckdns_hostname(domain@),
            registered_count as nat,
            capacity as nat,
            r.1.remaining_capacity as nat,
        ),
        !result.ok ==> r.1.message@ == refused_message(duckdns_hostname(domain@), result.raw_body@),
{
    let mut host = String::new();
    push_str(&mut host, domain);
    push_str(&mut host, ".duckdns.org");
    let remaining = capacity.saturating_sub(registered_count);
    let mut m = String::new();
    if result.ok {
        push_str(&mut m, "疎通確認に成功しました。'");
        push_str(&mut m, host.as_str());
        push_str(&mut m, "' は自動更新ループに登録されました(このインスタンスで現在");
        push_str(&mut m, u64_to_decimal(registered_count as u64).as_str());
        push_char(&mut m, '/');
        push_str(&mut m, u64_to_decimal(capacity as u64).as_str());
        push_str(&mut m, "件登録済み、残り");
        push_str(&mut m, u64_to_decimal(remaining as u64).as_str());
        push_str(
            &mut m,
            "件登録可能)。5分間隔でグローバルIPの変化を検知し、登録済み全ドメインを自動更新します。なお、DuckDNSアカウント/トークンの発行自体はduckdns.orgへのユーザー自身のログインが必要であり、本ソフトウェアはそれを代行しません。",
        );
    } else {
        push_str(&mut m, "DuckDNS側が失敗を返しました('");
        push_str(&mut m, host.as_str());
        push_str(&mut m, "')。トークンやサブドメイン名を再確認してください。生レスポンス: ");
        push_str(&mut m, result.raw_body.as_str());
        push_str(&mut m, "(登録自体は完了していますが、自動更新も同じ理由で失敗する可能性があります)");
    }
    let status: u16 = if result.ok {
        200
    } else {
        502
    };
    (
        status,
        SetupFreeDomainResponse {
            full_hostname: host,
            verified: result.ok,
            duckdns_raw_response: result.raw_body,
            registered_count,
            remaining_capacity: remaining,
            message: m,
        },
    )
}

} // verus!
