//! Subdomains under the operator's own base domains, registered with a DNS
//! provider and kept pointing at this server's public address.
//!
//! The library holds the bookkeeping (which subdomains are registered, the
//! last update result of each, the capacity limit) and the decisions; the
//! provider API calls and the address lookups are made by the program
//! around it.

use vstd::prelude::*;
use crate::keyed::{Keyed, has_key, is_key_order, listed, value_of};
use crate::text::{decimal_digits, lex_lt, push_char, push_str, str_eq, trim, u64_to_decimal};

verus! {

/// Most subdomains one instance registers.
pub const MAX_CUSTOM_DOMAINS: usize = 20;

/// The base domain served through Value-Domain.
pub open spec fn value_domain_base() -> Seq<char> {
    "aon.co.jp"@
}

/// The base domains served through ConoHa DNS.
pub open spec fn conoha_bases() -> Seq<Seq<char>> {
    seq!["runo.tokyo"@, "nasa.tokyo"@, "icpo.tokyo"@]
}

/// The base domain served through Value-Domain.
pub fn value_domain_base_domain() -> (r: &'static str)
    ensures
        r@ == value_domain_base(),
{
    "aon.co.jp"
}

/// The base domains served through ConoHa DNS, in a fixed order.
pub fn conoha_base_domains() -> (r: Vec<&'static str>)
    ensures
        r@.len() == 3,
        forall|i: int| 0 <= i < 3 ==> #[trigger] r@[i]@ == conoha_bases()[i],
{
    let v: Vec<&'static str> = vec!["runo.tokyo", "nasa.tokyo", "icpo.tokyo"];
    v
}

/// Which provider manages a base domain.
#[derive(Debug, Clone, Copy, PartialEq, Eq, Structural)]
pub enum ProviderKind {
    ValueDomain,
    Conoha,
}

/// Errors of the DNS providers.
#[derive(Debug, Clone)]
pub enum DnsProviderError {
    /// A required credential (named by its environment variable) is not
    /// configured.
    MissingCredential(String),
    /// The provider API could not be reached.
    RequestFailed(String),
    /// The provider API answered something unexpected.
    UnexpectedResponse(String),
}

impl DnsProviderError {
    /// Human-readable description of the error.
    pub fn message(&self) -> (r: String)
        ensures
            r@ == match self {
                DnsProviderError::MissingCredential(s) => "required credential is not configured: "@
                    + s@,
                DnsProviderError::RequestFailed(s) => "DNS provider API request failed: "@ + s@,
                DnsProviderError::UnexpectedResponse(s) =>
                    "DNS provider API returned an unexpected response: "@ + s@,
            },
    {
        let mut r = String::new();
        match self {
            DnsProviderError::MissingCredential(s) => {
                push_str(&mut r, "required credential is not configured: ");
                push_str(&mut r, s.as_str());
            },
            DnsProviderError::RequestFailed(s) => {
                push_str(&mut r, "DNS provider API request failed: ");
                push_str(&mut r, s.as_str());
            },
            DnsProviderError::UnexpectedResponse(s) => {
                push_str(&mut r, "DNS provider API returned an unexpected response: ");
                push_str(&mut r, s.as_str());
            },
        }
        r
    }
}

/// A record as registered with a provider.
#[derive(Debug, Clone, PartialEq, Eq)]
pub struct DnsRecordResult {
    pub fqdn: String,
    pub ip: String,
}

/// The provider of a base domain, if this server manages it.
pub open spec fn provider_of(base: Seq<char>) -> Option<ProviderKind> {
    if base == value_domain_base() {
        Some(ProviderKind::ValueDomain)
    } else if conoha_bases().contains(base) {
        Some(ProviderKind::Conoha)
    } else {
        None
    }
}

/// Whether this server manages subdomains of `base_domain`.
pub fn is_supported_base_domain(base_domain: &str) -> (b: bool)
    ensures
        b == (provider_of(base_domain@) is Some),
{
    provider_kind(base_domain).is_some()
}

fn provider_kind(base_domain: &str) -> (r: Option<ProviderKind>)
    ensures
        r == provider_of(base_domain@),
{
    if str_eq(base_domain, "aon.co.jp") {
        Some(ProviderKind::ValueDomain)
    } else if str_eq(base_domain, "runo.tokyo") || str_eq(base_domain, "nasa.tokyo") || str_eq(
        base_domain,
        "icpo.tokyo",
    ) {
        proof {
            let c = conoha_bases();
            if base_domain@ == "runo.tokyo"@ {
                assert(c[0] == base_domain@);
            } else if base_domain@ == "nasa.tokyo"@ {
                assert(c[1] == base_domain@);
            } else {
                assert(c[2] == base_domain@);
            }
        }
        Some(ProviderKind::Conoha)
    } else {
        proof {
            let c = conoha_bases();
            assert(!c.contains(base_domain@)) by {
                if c.contains(base_domain@) {
                    let i = choose|i: int| 0 <= i < c.len() && c[i] == base_domain@;
                    assert(i == 0 || i == 1 || i == 2);
                }
            }
        }
        None
    }
}

/// The text of the refusal of an unmanaged base domain.
pub open spec fn unsupported_message(base: Seq<char>) -> Seq<char> {
    seq!['\''] + base
        + "' is not a base domain this server can manage (supported: 'aon.co.jp', [\"runo.tokyo\", \"nasa.tokyo\", \"icpo.tokyo\"])"@
}

/// Chooses the provider for `base_domain`; refused with
/// `UnexpectedResponse` for a base domain this server does not manage.
/// The provider is then built from its credentials by the caller.
pub fn build_provider(base_domain: &str) -> (r: Result<ProviderKind, DnsProviderError>)
    ensures
        match provider_of(base_domain@) {
            Some(k) => r == Ok::<ProviderKind, DnsProviderError>(k),
            None => r matches Err(DnsProviderError::UnexpectedResponse(m)) && m@
                == unsupported_message(base_domain@),
        },
{
    match provider_kind(base_domain) {
        Some(k) => Ok(k),
        None => {
            let mut m = String::new();
            push_char(&mut m, '\'');
            push_str(&mut m, base_domain);
            push_str(
                &mut m,
                "' is not a base domain this server can manage (supported: 'aon.co.jp', [\"runo.tokyo\", \"nasa.tokyo\", \"icpo.tokyo\"])",
            );
            Err(DnsProviderError::UnexpectedResponse(m))
        },
    }
}

/// The provider for IPv6 automatic updates: only Value-Domain's base
/// domain has one.
pub open spec fn ipv6_provider_of(base: Seq<char>) -> Option<ProviderKind> {
    if base == value_domain_base() {
        Some(ProviderKind::ValueDomain)
    } else {
        None
    }
}

/// The text of the refusal of a base domain without IPv6 support.
pub open spec fn no_ipv6_message(base: Seq<char>) -> Seq<char> {
    seq!['\''] + base
        + "' is not a supported base domain for IPv6 auto-update (only 'aon.co.jp' is supported in this build)"@
}

/// Chooses the provider for IPv6 automatic updates of `base_domain`;
/// refused with `UnexpectedResponse` for other base domains.
pub fn resolve_provider(base_domain: &str) -> (r: Result<ProviderKind, DnsProviderError>)
    ensures
        match ipv6_provider_of(base_domain@) {
            Some(k) => r == Ok::<ProviderKind, DnsProviderError>(k),
            None => r matches Err(DnsProviderError::UnexpectedResponse(m)) && m@ == no_ipv6_message(
                base_domain@,
            ),
        },
{
    if str_eq(base_domain, "aon.co.jp") {
        Ok(ProviderKind::ValueDomain)
    } else {
        let mut m = String::new();
        push_char(&mut m, '\'');
        push_str(&mut m, base_domain);
        push_str(
            &mut m,
            "' is not a supported base domain for IPv6 auto-update (only 'aon.co.jp' is supported in this build)",
        );
        Err(DnsProviderError::UnexpectedResponse(m))
    }
}

/// A configured credential: present and not blank.
pub fn credential(name: &str, value: Option<&str>) -> (r: Result<String, DnsProviderError>)
    ensures
        match value {
            Some(v) => if trim(v@).len() > 0 {
                r matches Ok(s) && s@ == v@
            } else {
                r matches Err(DnsProviderError::MissingCredential(n)) && n@ == name@
            },
            None => r matches Err(DnsProviderError::MissingCredential(n)) && n@ == name@,
        },
{
    match value {
        Some(v) => {
            let cv = crate::text::chars_of(v);
            proof {
                assert(cv@.subrange(0, cv@.len() as int) =~= cv@);
            }
            let (a, b) = crate::text::trim_range(&cv, 0, cv.len());
            if a < b {
                Ok(v.to_owned())
            } else {
                Err(DnsProviderError::MissingCredential(name.to_owned()))
            }
        },
        None => Err(DnsProviderError::MissingCredential(name.to_owned())),
    }
}

/// The credentials a ConoHa DNS provider is built from.
#[derive(Debug, Clone)]
pub struct ConohaCredentials {
    pub base_domain: String,
    pub api_user_id: String,
    pub api_password: String,
    pub tenant_id: String,
}

/// The explanation carried when a base domain is not delegated to ConoHa.
pub open spec fn not_conoha_message(base: Seq<char>) -> Seq<char> {
    seq!['\''] + base
        + "' is not a ConoHa DNS-delegated domain known to this provider (supported: [\"runo.tokyo\", \"nasa.tokyo\", \"icpo.tokyo\"])"@
}

/// Whether a credential value is missing or blank.
pub open spec fn blank_or_missing(v: Option<Seq<char>>) -> bool {
    match v {
        Some(s) => trim(s).len() == 0,
        None => true,
    }
}

/// The ConoHa credentials for `base_domain` from the values of
/// `OPEN_EASY_WEB_CONOHA_API_USER_ID`, `..._API_PASSWORD` and
/// `..._TENANT_ID`. A base domain not delegated to ConoHa, or a missing
/// credential, is refused with `MissingCredential`: for the base domain
/// with the explanation above; for an unset value with that value's
/// name, checked in that order; for a blank value with the user id's
/// name.
pub fn conoha_credentials(
    base_domain: &str,
    api_user_id: Option<&str>,
    api_password: Option<&str>,
    tenant_id: Option<&str>,
) -> (r: Result<ConohaCredentials, DnsProviderError>)
    ensures
        !conoha_bases().contains(base_domain@) ==> (r matches Err(DnsProviderError::MissingCredential(m))
            && m@ == not_conoha_message(base_domain@)),
        conoha_bases().contains(base_domain@) ==> {
            if api_user_id is None {
                r matches Err(DnsProviderError::MissingCredential(m)) && m@ == "OPEN_EASY_WEB_CONOHA_API_USER_ID"@
            } else if api_password is None {
                r matches Err(DnsProviderError::MissingCredential(m)) && m@ == "OPEN_EASY_WEB_CONOHA_API_PASSWORD"@
            } else if tenant_id is None {
                r matches Err(DnsProviderError::MissingCredential(m)) && m@ == "OPEN_EASY_WEB_CONOHA_TENANT_ID"@
            } else if blank_or_missing(Some(api_user_id.unwrap()@)) || blank_or_missing(
                Some(api_password.unwrap()@),
            ) || blank_or_missing(Some(tenant_id.unwrap()@)) {
                r matches Err(DnsProviderError::MissingCredential(m)) && m@ == "OPEN_EASY_WEB_CONOHA_API_USER_ID"@
            } else {
                r matches Ok(c) && c.base_domain@ == base_domain@ && c.api_user_id@ == api_user_id.unwrap()@
                    && c.api_password@ == api_password.unwrap()@ && c.tenant_id@ == tenant_id.unwrap()@
            }
        },
{
    if provider_kind(base_domain) != Some(ProviderKind::Conoha) {
        let mut m = String::new();
        push_char(&mut m, '\'');
        push_str(&mut m, base_domain);
        push_str(
            &mut m,
            "' is not a ConoHa DNS-delegated domain known to this provider (supported: [\"runo.tokyo\", \"nasa.tokyo\", \"icpo.tokyo\"])",
        );
        proof {
            // "aon.co.jp" is not one of the ConoHa base domains.
            reveal_strlit("aon.co.jp");
            reveal_strlit("runo.tokyo");
            reveal_strlit("nasa.tokyo");
            reveal_strlit("icpo.tokyo");
        }
        return Err(DnsProviderError::MissingCredential(m));
    }
    let u = match api_user_id {
        Some(u) => u,
        None => return Err(DnsProviderError::MissingCredential(owned_str("OPEN_EASY_WEB_CONOHA_API_USER_ID"))),
    };
    let p = match api_password {
        Some(p) => p,
        None => return Err(DnsProviderError::MissingCredential(owned_str("OPEN_EASY_WEB_CONOHA_API_PASSWORD"))),
    };
    let t = match tenant_id {
        Some(t) => t,
        None => return Err(DnsProviderError::MissingCredential(owned_str("OPEN_EASY_WEB_CONOHA_TENANT_ID"))),
    };
    if is_blank(u) || is_blank(p) || is_blank(t) {
        return Err(DnsProviderError::MissingCredential(owned_str("OPEN_EASY_WEB_CONOHA_API_USER_ID")));
    }
    Ok(
        ConohaCredentials {
            base_domain: base_domain.to_owned(),
            api_user_id: u.to_owned(),
            api_password: p.to_owned(),
            tenant_id: t.to_owned(),
        },
    )
}

fn owned_str(s: &str) -> (r: String)
    ensures
        r@ == s@,
{
    let mut r = String::new();
    push_str(&mut r, s);
    r
}

fn is_blank(s: &str) -> (b: bool)
    ensures
        b == (trim(s@).len() == 0),
{
    let cv = crate::text::chars_of(s);
    proof {
        assert(cv@.subrange(0, cv@.len() as int) =~= cv@);
    }
    let (a, b) = crate::text::trim_range(&cv, 0, cv.len());
    a == b
}

// ---------------------------------------------------------------------------
// Registered subdomains
// ---------------------------------------------------------------------------

/// Errors of the subdomain bookkeeping.
#[derive(Debug, Clone)]
pub enum CustomDomainError {
    /// The table is full; the number of registered subdomains.
    CapacityExceeded(usize),
    /// The name is not registered.
    NotFound(String),
}

/// The description of a bookkeeping error.
pub open spec fn custom_domain_error_text(e: CustomDomainError) -> Seq<char> {
    match e {
        CustomDomainError::CapacityExceeded(n) => "capacity exceeded: this instance already has "@
            + decimal_digits(n as nat) + " custom domain(s) registered (max 20)"@,
        CustomDomainError::NotFound(f) => "custom domain '"@ + f@ + "' is not registered"@,
    }
}

impl CustomDomainError {
    /// Human-readable description of the error.
    pub fn message(&self) -> (r: String)
        ensures
            r@ == custom_domain_error_text(*self),
    {
        let mut r = String::new();
        match self {
            CustomDomainError::CapacityExceeded(n) => {
                push_str(&mut r, "capacity exceeded: this instance already has ");
                let d = u64_to_decimal(*n as u64);
                push_str(&mut r, d.as_str());
                push_str(&mut r, " custom domain(s) registered (max 20)");
            },
            CustomDomainError::NotFound(f) => {
                push_str(&mut r, "custom domain '");
                push_str(&mut r, f.as_str());
                push_str(&mut r, "' is not registered");
            },
        }
        r
    }
}

/// The last update attempt of one subdomain.
#[derive(Debug, Clone)]
pub struct CustomDomainUpdateStatus {
    pub ok: bool,
    pub ip: Option<String>,
    pub message: String,
    pub checked_at_unix: u64,
}

impl CustomDomainUpdateStatus {
    /// A field-by-field copy.
    pub fn duplicate(&self) -> (r: Self)
        ensures
            r == *self,
    {
        CustomDomainUpdateStatus {
            ok: self.ok,
            ip: match &self.ip {
                Some(s) => Some(s.clone()),
                None => None,
            },
            message: self.message.clone(),
            checked_at_unix: self.checked_at_unix,
        }
    }
}

/// A registered subdomain as listed.
#[derive(Debug, Clone)]
pub struct CustomDomainSummary {
    pub base_domain: String,
    pub subdomain: String,
    pub fqdn: String,
    pub last_update: Option<CustomDomainUpdateStatus>,
}

/// The full name of `subdomain` under `base_domain`.
pub open spec fn fqdn_of(base_domain: Seq<char>, subdomain: Seq<char>) -> Seq<char> {
    subdomain + seq!['.'] + base_domain
}

/// `subdomain.base_domain`.
pub fn join_fqdn(base_domain: &str, subdomain: &str) -> (r: String)
    ensures
        r@ == fqdn_of(base_domain@, subdomain@),
{
    let mut r = String::new();
    push_str(&mut r, subdomain);
    push_char(&mut r, '.');
    push_str(&mut r, base_domain);
    r
}

/// Registered subdomains (full name → base domain and subdomain) and the
/// last update result of each.
pub struct CustomDomainRegistry {
    entries: Keyed<(String, String)>,
    last_update: Keyed<CustomDomainUpdateStatus>,
}

/// Model of the table.
pub struct CustomDomainView {
    pub entries: Seq<(Seq<char>, (String, String))>,
    pub last_update: Seq<(Seq<char>, CustomDomainUpdateStatus)>,
}

impl View for CustomDomainRegistry {
    type V = CustomDomainView;

    closed spec fn view(&self) -> CustomDomainView {
        CustomDomainView { entries: self.entries@, last_update: self.last_update@ }
    }
}

/// Whether `s` is sorted by full name, strictly.
pub open spec fn sorted_by_fqdn(s: Seq<CustomDomainSummary>) -> bool {
    forall|i: int, j: int| 0 <= i < j < s.len() ==> lex_lt(#[trigger] s[i].fqdn@, #[trigger] s[j].fqdn@)
}

impl CustomDomainRegistry {
    /// Whether the table is consistent.
    pub closed spec fn wf(&self) -> bool {
        self.entries.wf() && self.last_update.wf() && self.entries@.len() <= MAX_CUSTOM_DOMAINS
    }

    /// An empty table.
    pub fn new() -> (r: Self)
        ensures
            r.wf(),
            r@.entries.len() == 0,
            r@.last_update.len() == 0,
    {
        CustomDomainRegistry { entries: Keyed::new(), last_update: Keyed::new() }
    }

    /// Number of registered subdomains.
    pub fn len(&self) -> (n: usize)
        ensures
            n == self@.entries.len(),
    {
        self.entries.len()
    }

    /// Records the result of an update attempt made at `now`.
    pub fn record_update_result(&mut self, fqdn: &str, ok: bool, ip: Option<String>, message: String, now: u64)
        requires
            old(self).wf(),
        ensures
            final(self).wf(),
            final(self)@.entries == old(self)@.entries,
            value_of(final(self)@.last_update, fqdn@) == Some(
                CustomDomainUpdateStatus { ok, ip, message, checked_at_unix: now },
            ),
            forall|f: Seq<char>|
                f != fqdn@ ==> value_of(final(self)@.last_update, f) == value_of(
                    old(self)@.last_update,
                    f,
                ),
    {
        self.last_update.insert(
            fqdn.to_owned(),
            CustomDomainUpdateStatus { ok, ip, message, checked_at_unix: now },
        );
    }

    /// Registers `subdomain.base_domain` and returns that name. A new name
    /// is refused with `CapacityExceeded` when the table is full;
    /// registering a name again is always accepted.
    pub fn register(&mut self, base_domain: String, subdomain: String) -> (r: Result<String, CustomDomainError>)
        requires
            old(self).wf(),
        ensures
            final(self).wf(),
            final(self)@.last_update == old(self)@.last_update,
            ({
                let f = fqdn_of(base_domain@, subdomain@);
                if !has_key(old(self)@.entries, f) && old(self)@.entries.len() >= MAX_CUSTOM_DOMAINS {
                    r matches Err(CustomDomainError::CapacityExceeded(n)) && n == old(self)@.entries.len()
                        && final(self)@ == old(self)@
                } else {
                    &&& r matches Ok(name) && name@ == f
                    &&& value_of(final(self)@.entries, f) == Some((base_domain, subdomain))
                    &&& forall|g: Seq<char>|
                        g != f ==> value_of(final(self)@.entries, g) == value_of(old(self)@.entries, g)
                    &&& final(self)@.entries.len() == old(self)@.entries.len() + if has_key(
                        old(self)@.entries,
                        f,
                    ) {
                        0int
                    } else {
                        1int
                    }
                }
            }),
            final(self)@.entries.len() <= MAX_CUSTOM_DOMAINS,
    {
        let fqdn = join_fqdn(base_domain.as_str(), subdomain.as_str());
        let known = self.entries.contains_key(fqdn.as_str());
        if !known && self.entries.len() >= MAX_CUSTOM_DOMAINS {
            return Err(CustomDomainError::CapacityExceeded(self.entries.len()));
        }
        let ghost before = self.entries@;
        self.entries.insert(fqdn.clone(), (base_domain, subdomain));
        proof {
            crate::keyed::lemma_insert_len(before, self.entries@, fqdn@, known);
        }
        Ok(fqdn)
    }

    /// Unregisters `fqdn` and its update result, handing back its base
    /// domain and subdomain.
    pub fn remove(&mut self, fqdn: &str) -> (r: Result<(String, String), CustomDomainError>)
        requires
            old(self).wf(),
        ensures
            final(self).wf(),
            match value_of(old(self)@.entries, fqdn@) {
                Some(e) => {
                    &&& r == Ok::<(String, String), CustomDomainError>(e)
                    &&& value_of(final(self)@.entries, fqdn@) is None
                    &&& value_of(final(self)@.last_update, fqdn@) is None
                },
                None => r matches Err(CustomDomainError::NotFound(n)) && n@ == fqdn@ && final(self)@
                    == old(self)@,
            },
            forall|g: Seq<char>|
                g != fqdn@ ==> value_of(final(self)@.entries, g) == value_of(old(self)@.entries, g)
                    && value_of(final(self)@.last_update, g) == value_of(old(self)@.last_update, g),
    {
        let ghost before = self.entries@;
        match self.entries.remove(fqdn) {
            None => Err(CustomDomainError::NotFound(fqdn.to_owned())),
            Some(e) => {
                proof {
                    crate::keyed::lemma_remove_len(before, self.entries@, fqdn@);
                }
                let _ = self.last_update.remove(fqdn);
                Ok(e)
            },
        }
    }

    /// `(fqdn, base_domain, subdomain)` of every registered subdomain.
    pub fn snapshot(&self) -> (r: Vec<(String, String, String)>)
        ensures
            r@.len() == self@.entries.len(),
            forall|i: int|
                0 <= i < r@.len() ==> (#[trigger] r@[i]).0@ == self@.entries[i].0 && r@[i].1
                    == self@.entries[i].1.0 && r@[i].2 == self@.entries[i].1.1,
    {
        let mut r: Vec<(String, String, String)> = Vec::new();
        let mut i: usize = 0;
        while i < self.entries.len()
            invariant
                i <= self@.entries.len(),
                r@.len() == i,
                forall|k: int|
                    0 <= k < i ==> (#[trigger] r@[k]).0@ == self@.entries[k].0 && r@[k].1
                        == self@.entries[k].1.0 && r@[k].2 == self@.entries[k].1.1,
            decreases self@.entries.len() - i,
        {
            let (f, v) = self.entries.entry(i);
            r.push((f.clone(), v.0.clone(), v.1.clone()));
            i += 1;
        }
        r
    }

    /// Every registered subdomain with its last update result, sorted by
    /// full name.
    pub fn list(&self) -> (r: Vec<CustomDomainSummary>)
        requires
            self.wf(),
        ensures
            r@.len() == self@.entries.len(),
            sorted_by_fqdn(r@),
            forall|f: Seq<char>|
                has_key(self@.entries, f) <==> exists|i: int|
                    0 <= i < r@.len() && (#[trigger] r@[i]).fqdn@ == f,
            forall|i: int|
                0 <= i < r@.len() ==> value_of(self@.entries, (#[trigger] r@[i]).fqdn@) == Some(
                    (r@[i].base_domain, r@[i].subdomain),
                ) && r@[i].last_update == value_of(self@.last_update, r@[i].fqdn@),
    {
        let order = self.entries.key_order();
        let ghost es = self.entries@;
        let mut out: Vec<CustomDomainSummary> = Vec::new();
        let mut j: usize = 0;
        while j < order.len()
            invariant
                self.wf(),
                es == self@.entries,
                is_key_order(es, order@),
                j <= order@.len(),
                out@.len() == j,
                forall|k: int|
                    0 <= k < j ==> (#[trigger] out@[k]).fqdn@ == es[order@[k] as int].0 && (
                    out@[k].base_domain, out@[k].subdomain) == es[order@[k] as int].1 && out@[k].last_update
                        == value_of(self@.last_update, es[order@[k] as int].0),
            decreases order@.len() - j,
        {
            let (f, v) = self.entries.entry(order[j]);
            let status = match self.last_update.get(f.as_str()) {
                Some(s) => Some(s.duplicate()),
                None => None,
            };
            out.push(
                CustomDomainSummary {
                    base_domain: v.0.clone(),
                    subdomain: v.1.clone(),
                    fqdn: f.clone(),
                    last_update: status,
                },
            );
            j += 1;
        }
        proof {
            let s = out@;
            assert forall|a: int, b: int| 0 <= a < b < s.len() implies lex_lt(
                #[trigger] s[a].fqdn@,
                #[trigger] s[b].fqdn@,
            ) by {
                assert(s[a].fqdn@ == es[order@[a] as int].0);
                assert(s[b].fqdn@ == es[order@[b] as int].0);
            }
            assert forall|f: Seq<char>|
                has_key(es, f) <==> exists|i: int| 0 <= i < s.len() && (#[trigger] s[i]).fqdn@ == f by {
                if has_key(es, f) {
                    let k = choose|k: int| 0 <= k < es.len() && (#[trigger] es[k]).0 == f;
                    assert(listed(order@, k));
                    let i = choose|i: int| 0 <= i < order@.len() && order@[i] == k;
                    assert(s[i].fqdn@ == f);
                }
            }
            assert forall|i: int| 0 <= i < s.len() implies value_of(es, (#[trigger] s[i]).fqdn@) == Some(
                (s[i].base_domain, s[i].subdomain),
            ) && s[i].last_update == value_of(self@.last_update, s[i].fqdn@) by {
                crate::keyed::lemma_value_at(es, order@[i] as int);
            }
        }
        out
    }
}

/// The room left for more subdomains once `count` are registered.
pub fn remaining_capacity(count: usize) -> (r: usize)
    ensures
        r == if count >= MAX_CUSTOM_DOMAINS { 0 } else { (MAX_CUSTOM_DOMAINS - count) as usize },
{
    MAX_CUSTOM_DOMAINS.saturating_sub(count)
}

/// Why a setup request is refused before anything is registered.
#[derive(Debug, Clone, Copy, PartialEq, Eq, Structural)]
pub enum SetupRejection {
    /// The base domain or the subdomain is blank.
    EmptyField,
    /// The base domain is not managed by this server.
    UnsupportedBaseDomain,
}

/// Body of a request registering a subdomain.
#[derive(Debug, Clone)]
pub struct SetupCustomDnsRequest {
    /// One of the managed base domains.
    pub base_domain: String,
    /// The wanted subdomain (`blog` gives `blog.aon.co.jp`).
    pub subdomain: String,
    /// When given, a certificate is requested once the record is in place.
    pub contact_email: Option<String>,
}

/// Checks a setup request: both names must be non-blank, and the base
/// domain managed here.
pub fn check_setup_request(body: &SetupCustomDnsRequest) -> (r: Result<(), SetupRejection>)
    ensures
        trim(body.base_domain@).len() == 0 || trim(body.subdomain@).len() == 0 ==> r == Err::<
            (),
            SetupRejection,
        >(SetupRejection::EmptyField),
        trim(body.base_domain@).len() > 0 && trim(body.subdomain@).len() > 0 && provider_of(
            body.base_domain@,
        ) is None ==> r == Err::<(), SetupRejection>(SetupRejection::UnsupportedBaseDomain),
        trim(body.base_domain@).len() > 0 && trim(body.subdomain@).len() > 0 && provider_of(
            body.base_domain@,
        ) is Some ==> r is Ok,
{
    let bv = crate::text::chars_of(body.base_domain.as_str());
    let sv = crate::text::chars_of(body.subdomain.as_str());
    proof {
        assert(bv@.subrange(0, bv@.len() as int) =~= bv@);
        assert(sv@.subrange(0, sv@.len() as int) =~= sv@);
    }
    let (a, b) = crate::text::trim_range(&bv, 0, bv.len());
    let (c, d) = crate::text::trim_range(&sv, 0, sv.len());
    if a == b || c == d {
        return Err(SetupRejection::EmptyField);
    }
    if !is_supported_base_domain(body.base_domain.as_str()) {
        return Err(SetupRejection::UnsupportedBaseDomain);
    }
    Ok(())
}

/// The text a refused setup request is answered with (400).
pub open spec fn setup_rejection_text(rejection: SetupRejection, base_domain: Seq<char>) -> Seq<char> {
    match rejection {
        SetupRejection::EmptyField => "both 'base_domain' and 'subdomain' must be non-empty"@,
        SetupRejection::UnsupportedBaseDomain => seq!['\''] + base_domain
            + "' is not a base domain this server is configured to manage (supported: 'aon.co.jp', [\"runo.tokyo\", \"nasa.tokyo\", \"icpo.tokyo\"])"@,
    }
}

/// The text a refused setup request is answered with.
pub fn setup_rejection_message(rejection: SetupRejection, base_domain: &str) -> (r: String)
    ensures
        r@ == setup_rejection_text(rejection, base_domain@),
{
    let mut m = String::new();
    match rejection {
        SetupRejection::EmptyField => push_str(&mut m, "both 'base_domain' and 'subdomain' must be non-empty"),
        SetupRejection::UnsupportedBaseDomain => {
            push_char(&mut m, '\'');
            push_str(&mut m, base_domain);
            push_str(
                &mut m,
                "' is not a base domain this server is configured to manage (supported: 'aon.co.jp', [\"runo.tokyo\", \"nasa.tokyo\", \"icpo.tokyo\"])",
            );
        },
    }
    m
}


// ---------------------------------------------------------------------------
// Setup, step by step
// ---------------------------------------------------------------------------

/// The advice appended when a name cannot be registered.
pub open spec fn register_advice() -> Seq<char> {
    " — 不要なドメインを DELETE /admin/custom-dns/domains/:fqdn で削除してから再度お試しください。"@
}

/// The answer when the table refuses a name: 400 when it is full (500
/// for the other error, which registering does not give), with the
/// error's description and the advice to remove an unneeded name.
pub fn register_refusal_reply(e: &CustomDomainError) -> (r: (u16, String))
    ensures
        r.0 == match e {
            CustomDomainError::CapacityExceeded(_) => 400u16,
            CustomDomainError::NotFound(_) => 500u16,
        },
        r.1@ == custom_domain_error_text(*e) + register_advice(),
{
    let status: u16 = match e {
        CustomDomainError::CapacityExceeded(_) => 400,
        CustomDomainError::NotFound(_) => 500,
    };
    let mut m = e.message();
    push_str(&mut m, " — 不要なドメインを DELETE /admin/custom-dns/domains/:fqdn で削除してから再度お試しください。");
    (status, m)
}

/// How the attempt to obtain a TLS certificate after registering went.
#[derive(Debug, Clone)]
pub enum HttpsAttempt {
    /// No contact address was given, so none was tried.
    NotRequested,
    /// A contact address was given but no ACME client is available.
    Unavailable,
    /// The certificate was obtained.
    Obtained,
    /// Obtaining it failed with this description.
    Failed(String),
}

/// What the outside steps of a setup reported, after the name was
/// registered in the table.
#[derive(Debug, Clone)]
pub enum SetupEvent {
    /// No provider client could be made (description).
    ProviderUnusable(String),
    /// The current public address could not be found out (description).
    IpLookupFailed(String),
    /// The provider refused or failed the record for `ip` (description).
    ProviderFailed { ip: String, error: String },
    /// The provider registered the record: the name and address it
    /// reports, and how obtaining a certificate went.
    Registered { fqdn: String, ip: String, https: HttpsAttempt },
}

/// The JSON answer of a successful setup.
#[derive(Debug, Clone)]
pub struct SetupSuccess {
    pub fqdn: String,
    pub ip: String,
    pub verified: bool,
    pub registered_count: usize,
    pub remaining_capacity: usize,
    pub message: String,
    pub https_ready: Option<bool>,
    pub https_message: Option<String>,
}

/// The answer to a setup request once the outside steps are done.
#[derive(Debug, Clone)]
pub enum SetupReply {
    /// A plain-text answer with this status.
    Text(u16, String),
    /// The JSON answer, status 200.
    Success(SetupSuccess),
}

/// The message of a registered record.
pub open spec fn registered_message(fqdn: Seq<char>) -> Seq<char> {
    seq!['\''] + fqdn + "' へAレコードを登録しました。5分間隔でグローバルIPの変化を検知し、登録済み全ドメインを自動更新します。"@
}

/// The `https_ready` and `https_message` of a certificate attempt for `fqdn`.
pub open spec fn https_fields(h: HttpsAttempt, fqdn: Seq<char>) -> (Option<bool>, Option<Seq<char>>) {
    match h {
        HttpsAttempt::NotRequested => (None, None),
        HttpsAttempt::Unavailable => (
            Some(false),
            Some("'contact_email' was provided, but this build was compiled without the 'acme' feature; TLS was not obtained automatically."@),
        ),
        HttpsAttempt::Obtained => (
            Some(true),
            Some(seq!['\''] + fqdn + "' のTLS証明書を取得し、即座にhttps://で応答できるようになりました。"@),
        ),
        HttpsAttempt::Failed(e) => (
            Some(false),
            Some("TLS証明書の自動取得は失敗しました(DNS伝播がまだ間に合っていない可能性があります): "@ + e@
                + " — 数分待ってから POST /admin/tenants/"@ + fqdn + "/tls/acme を再度呼び出してください。"@),
        ),
    }
}

fn https_fields_exec(h: &HttpsAttempt, fqdn: &str) -> (r: (Option<bool>, Option<String>))
    ensures
        r.0 == https_fields(*h, fqdn@).0,
        match r.1 {
            Some(m) => https_fields(*h, fqdn@).1 == Some(m@),
            None => https_fields(*h, fqdn@).1 is None,
        },
{
    match h {
        HttpsAttempt::NotRequested => (None, None),
        HttpsAttempt::Unavailable => {
            let mut m = String::new();
            push_str(
                &mut m,
                "'contact_email' was provided, but this build was compiled without the 'acme' feature; TLS was not obtained automatically.",
            );
            (Some(false), Some(m))
        },
        HttpsAttempt::Obtained => {
            let mut m = String::new();
            push_char(&mut m, '\'');
            push_str(&mut m, fqdn);
            push_str(&mut m, "' のTLS証明書を取得し、即座にhttps://で応答できるようになりました。");
            (Some(true), Some(m))
        },
        HttpsAttempt::Failed(e) => {
            let mut m = String::new();
            push_str(&mut m, "TLS証明書の自動取得は失敗しました(DNS伝播がまだ間に合っていない可能性があります): ");
            push_str(&mut m, e.as_str());
            push_str(&mut m, " — 数分待ってから POST /admin/tenants/");
            push_str(&mut m, fqdn);
            push_str(&mut m, "/tls/acme を再度呼び出してください。");
            (Some(false), Some(m))
        },
    }
}

/// The step of a setup after the outside work for the registered name
/// `fqdn`: the outcome is recorded as the name's last update at `now`
/// and the answer is chosen. A provider that cannot be used gives 503, a
/// failed address lookup or provider call 502, each naming `fqdn`; a
/// registered record is recorded as a success with its address and
/// answered with the JSON summary: the name and address the provider
/// reported, the number of names now registered and the room left, and
/// the certificate attempt.
pub fn setup_step(registry: &mut CustomDomainRegistry, fqdn: &str, event: SetupEvent, now: u64) -> (r: SetupReply)
    requires
        old(registry).wf(),
    ensures
        final(registry).wf(),
        final(registry)@.entries == old(registry)@.entries,
        forall|f: Seq<char>|
            f != fqdn@ ==> value_of(final(registry)@.last_update, f) == value_of(old(registry)@.last_update, f),
        match event {
            SetupEvent::ProviderUnusable(e) => {
                &&& value_of(final(registry)@.last_update, fqdn@) matches Some(u) && !u.ok && u.ip is None
                    && u.message == e && u.checked_at_unix == now
                &&& r matches SetupReply::Text(st, m) && st == 503 && m@ == "registered '"@ + fqdn@
                    + "' locally, but the DNS provider is not usable yet: "@ + e@
            },
            SetupEvent::IpLookupFailed(e) => {
                &&& value_of(final(registry)@.last_update, fqdn@) matches Some(u) && !u.ok && u.ip is None
                    && u.message == e && u.checked_at_unix == now
                &&& r matches SetupReply::Text(st, m) && st == 502 && m@ == "registered '"@ + fqdn@
                    + "' locally, but failed to detect the current public IP: "@ + e@
            },
            SetupEvent::ProviderFailed { ip, error } => {
                &&& value_of(final(registry)@.last_update, fqdn@) matches Some(u) && !u.ok && u.ip == Some(ip)
                    && u.message == error && u.checked_at_unix == now
                &&& r matches SetupReply::Text(st, m) && st == 502 && m@ == "registered '"@ + fqdn@
                    + "' locally, but the DNS provider API call failed: "@ + error@
            },
            SetupEvent::Registered { fqdn: reported, ip, https } => {
                &&& value_of(final(registry)@.last_update, fqdn@) matches Some(u) && u.ok && u.ip == Some(ip)
                    && u.message@ == "registered"@ && u.checked_at_unix == now
                &&& r matches SetupReply::Success(sr) && sr.fqdn == reported && sr.ip == ip && sr.verified
                    && sr.registered_count == old(registry)@.entries.len()
                    && sr.remaining_capacity == (if old(registry)@.entries.len() >= MAX_CUSTOM_DOMAINS {
                    0
                } else {
                    MAX_CUSTOM_DOMAINS - old(registry)@.entries.len()
                }) && sr.message@ == registered_message(reported@) && sr.https_ready == https_fields(
                    https,
                    reported@,
                ).0 && match sr.https_message {
                    Some(m) => https_fields(https, reported@).1 == Some(m@),
                    None => https_fields(https, reported@).1 is None,
                }
            },
        },
{
    match event {
        SetupEvent::ProviderUnusable(e) => {
            let mut m = String::new();
            push_str(&mut m, "registered '");
            push_str(&mut m, fqdn);
            push_str(&mut m, "' locally, but the DNS provider is not usable yet: ");
            push_str(&mut m, e.as_str());
            registry.record_update_result(fqdn, false, None, e, now);
            SetupReply::Text(503, m)
        },
        SetupEvent::IpLookupFailed(e) => {
            let mut m = String::new();
            push_str(&mut m, "registered '");
            push_str(&mut m, fqdn);
            push_str(&mut m, "' locally, but failed to detect the current public IP: ");
            push_str(&mut m, e.as_str());
            registry.record_update_result(fqdn, false, None, e, now);
            SetupReply::Text(502, m)
        },
        SetupEvent::ProviderFailed { ip, error } => {
            let mut m = String::new();
            push_str(&mut m, "registered '");
            push_str(&mut m, fqdn);
            push_str(&mut m, "' locally, but the DNS provider API call failed: ");
            push_str(&mut m, error.as_str());
            registry.record_update_result(fqdn, false, Some(ip), error, now);
            SetupReply::Text(502, m)
        },
        SetupEvent::Registered { fqdn: reported, ip, https } => {
            let mut done = String::new();
            push_str(&mut done, "registered");
            let ip_copy = ip.clone();
            registry.record_update_result(fqdn, true, Some(ip_copy), done, now);
            let count = registry.len();
            let mut message = String::new();
            push_char(&mut message, '\'');
            push_str(&mut message, reported.as_str());
            push_str(
                &mut message,
                "' へAレコードを登録しました。5分間隔でグローバルIPの変化を検知し、登録済み全ドメインを自動更新します。",
            );
            let (https_ready, https_message) = https_fields_exec(&https, reported.as_str());
            SetupReply::Success(
                SetupSuccess {
                    fqdn: reported,
                    ip,
                    verified: true,
                    registered_count: count,
                    remaining_capacity: remaining_capacity(count),
                    message,
                    https_ready,
                    https_message,
                },
            )
        },
    }
}

} // verus!
