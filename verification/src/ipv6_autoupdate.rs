//! Bookkeeping of the subdomains whose AAAA record is kept pointing at this
//! machine's current global IPv6 address.
//!
//! Only Value-Domain (`aon.co.jp`) can publish AAAA records, so only that
//! base domain is accepted. The address lookups and provider calls are
//! made by the program around the library.

use vstd::prelude::*;
use crate::custom_dns::{fqdn_of, join_fqdn, value_domain_base};
use crate::keyed::{Keyed, has_key, is_key_order, listed, value_of};
use crate::text::{decimal_digits, lex_lt, push_str, str_eq, trim, u64_to_decimal};

verus! {

/// Most entries one instance keeps up to date.
pub const MAX_IPV6_AUTO_UPDATE_ENTRIES: usize = 20;

/// Errors of the IPv6 auto-update bookkeeping.
#[derive(Debug, Clone)]
pub enum Ipv6AutoUpdateError {
    /// The table is full; the number of registered entries.
    CapacityExceeded(usize),
    /// No entry for this base domain and subdomain.
    NotFound(String, String),
    /// The base domain cannot carry AAAA records here.
    UnsupportedBaseDomain(String),
}

impl Ipv6AutoUpdateError {
    /// Human-readable description of the error.
    pub fn message(&self) -> (r: String)
        ensures
            r@ == match self {
                Ipv6AutoUpdateError::CapacityExceeded(n) => "capacity exceeded: this instance already has "@
                    + decimal_digits(*n as nat)
                    + " IPv6 auto-update entry(ies) registered (max 20)"@,
                Ipv6AutoUpdateError::NotFound(d, s) => "entry for domain='"@ + d@ + "' subdomain='"@ + s@
                    + "' is not registered"@,
                Ipv6AutoUpdateError::UnsupportedBaseDomain(d) => "base domain '"@ + d@
                    + "' is not supported (this build only supports Value-Domain-managed 'aon.co.jp' for AAAA auto-update)"@,
            },
    {
        let mut r = String::new();
        match self {
            Ipv6AutoUpdateError::CapacityExceeded(n) => {
                push_str(&mut r, "capacity exceeded: this instance already has ");
                let d = u64_to_decimal(*n as u64);
                push_str(&mut r, d.as_str());
                push_str(&mut r, " IPv6 auto-update entry(ies) registered (max 20)");
            },
            Ipv6AutoUpdateError::NotFound(d, s) => {
                push_str(&mut r, "entry for domain='");
                push_str(&mut r, d.as_str());
                push_str(&mut r, "' subdomain='");
                push_str(&mut r, s.as_str());
                push_str(&mut r, "' is not registered");
            },
            Ipv6AutoUpdateError::UnsupportedBaseDomain(d) => {
                push_str(&mut r, "base domain '");
                push_str(&mut r, d.as_str());
                push_str(
                    &mut r,
                    "' is not supported (this build only supports Value-Domain-managed 'aon.co.jp' for AAAA auto-update)",
                );
            },
        }
        r
    }
}

/// The last update attempt of one entry.
#[derive(Debug, Clone)]
pub struct Ipv6UpdateStatus {
    pub ok: bool,
    /// The address that was published, when one was found.
    pub ipv6: Option<String>,
    /// What went wrong (empty on success).
    pub detail: String,
    /// Unix time of the attempt, in seconds.
    pub checked_at_unix: u64,
}

impl Ipv6UpdateStatus {
    /// A field-by-field copy.
    pub fn duplicate(&self) -> (r: Self)
        ensures
            r == *self,
    {
        Ipv6UpdateStatus {
            ok: self.ok,
            ipv6: match &self.ipv6 {
                Some(s) => Some(s.clone()),
                None => None,
            },
            detail: self.detail.clone(),
            checked_at_unix: self.checked_at_unix,
        }
    }
}

/// One entry: a subdomain of a base domain.
#[derive(Debug, Clone, PartialEq, Eq, Hash)]
pub struct Ipv6AutoUpdateKey {
    pub base_domain: String,
    pub subdomain: String,
}

impl Ipv6AutoUpdateKey {
    /// `subdomain.base_domain`.
    pub fn fqdn(&self) -> (r: String)
        ensures
            r@ == fqdn_of(self.base_domain@, self.subdomain@),
    {
        join_fqdn(self.base_domain.as_str(), self.subdomain.as_str())
    }

    /// A field-by-field copy.
    pub fn duplicate(&self) -> (r: Self)
        ensures
            r == *self,
    {
        Ipv6AutoUpdateKey { base_domain: self.base_domain.clone(), subdomain: self.subdomain.clone() }
    }
}

/// The full name of an entry.
pub open spec fn key_fqdn(k: Ipv6AutoUpdateKey) -> Seq<char> {
    fqdn_of(k.base_domain@, k.subdomain@)
}

/// Registered entries (by full name) and the last update result of each.
pub struct Ipv6AutoUpdateRegistry {
    entries: Keyed<Ipv6AutoUpdateKey>,
    last_update: Keyed<Ipv6UpdateStatus>,
}

/// Model of the registry.
pub struct Ipv6RegistryView {
    pub entries: Seq<(Seq<char>, Ipv6AutoUpdateKey)>,
    pub last_update: Seq<(Seq<char>, Ipv6UpdateStatus)>,
}

impl View for Ipv6AutoUpdateRegistry {
    type V = Ipv6RegistryView;

    closed spec fn view(&self) -> Ipv6RegistryView {
        Ipv6RegistryView { entries: self.entries@, last_update: self.last_update@ }
    }
}

/// Whether `base_domain`/`subdomain` is a registered entry.
pub open spec fn is_registered(
    entries: Seq<(Seq<char>, Ipv6AutoUpdateKey)>,
    base_domain: Seq<char>,
    subdomain: Seq<char>,
) -> bool {
    base_domain == value_domain_base() && has_key(entries, fqdn_of(base_domain, subdomain))
}

/// Whether `s` is sorted by full name, strictly.
pub open spec fn sorted_by_key_fqdn(s: Seq<(Ipv6AutoUpdateKey, Option<Ipv6UpdateStatus>)>) -> bool {
    forall|i: int, j: int|
        0 <= i < j < s.len() ==> lex_lt(key_fqdn(#[trigger] s[i].0), key_fqdn(#[trigger] s[j].0))
}

impl Ipv6AutoUpdateRegistry {
    /// Whether the registry is consistent: distinct names, within capacity,
    /// each entry stored under its own full name and under the supported
    /// base domain.
    pub closed spec fn wf(&self) -> bool {
        &&& self.entries.wf()
        &&& self.last_update.wf()
        &&& self.entries@.len() <= MAX_IPV6_AUTO_UPDATE_ENTRIES
        &&& forall|i: int|
            0 <= i < self.entries@.len() ==> (#[trigger] self.entries@[i]).0 == key_fqdn(
                self.entries@[i].1,
            ) && self.entries@[i].1.base_domain@ == value_domain_base()
    }

    /// An empty registry.
    pub fn new() -> (r: Self)
        ensures
            r.wf(),
            r@.entries.len() == 0,
            r@.last_update.len() == 0,
    {
        Ipv6AutoUpdateRegistry { entries: Keyed::new(), last_update: Keyed::new() }
    }

    /// Number of registered entries.
    pub fn len(&self) -> (n: usize)
        ensures
            n == self@.entries.len(),
    {
        self.entries.len()
    }

    /// Registers `subdomain` under `base_domain`. Only the Value-Domain
    /// base domain is accepted; a new entry is refused with
    /// `CapacityExceeded` when the table is full; registering an entry
    /// again is accepted.
    pub fn register(&mut self, base_domain: String, subdomain: String) -> (r: Result<
        Ipv6AutoUpdateKey,
        Ipv6AutoUpdateError,
    >)
        requires
            old(self).wf(),
        ensures
            final(self).wf(),
            final(self)@.last_update == old(self)@.last_update,
            ({
                let f = fqdn_of(base_domain@, subdomain@);
                if base_domain@ != value_domain_base() {
                    r matches Err(Ipv6AutoUpdateError::UnsupportedBaseDomain(d)) && d == base_domain
                        && final(self)@ == old(self)@
                } else if !has_key(old(self)@.entries, f) && old(self)@.entries.len()
                    >= MAX_IPV6_AUTO_UPDATE_ENTRIES {
                    r matches Err(Ipv6AutoUpdateError::CapacityExceeded(n)) && n == old(self)@.entries.len()
                        && final(self)@ == old(self)@
                } else {
                    &&& r == Ok::<Ipv6AutoUpdateKey, Ipv6AutoUpdateError>(
                        Ipv6AutoUpdateKey { base_domain, subdomain },
                    )
                    &&& value_of(final(self)@.entries, f) == Some(
                        Ipv6AutoUpdateKey { base_domain, subdomain },
                    )
                    &&& forall|g: Seq<char>|
                        g != f ==> value_of(final(self)@.entries, g) == value_of(old(self)@.entries, g)
                    &&& final(self)@.entries.len() == old(self)@.entries.len() + if has_key(
                        old(self)@.entries,
                        f,
                    ) {
                        0int
                    } else {
                        1int
                    }
                }
            }),
            final(self)@.entries.len() <= MAX_IPV6_AUTO_UPDATE_ENTRIES,
    {
        if !str_eq(base_domain.as_str(), "aon.co.jp") {
            return Err(Ipv6AutoUpdateError::UnsupportedBaseDomain(base_domain));
        }
        let key = Ipv6AutoUpdateKey { base_domain, subdomain };
        let f = key.fqdn();
        let known = self.entries.contains_key(f.as_str());
        if !known && self.entries.len() >= MAX_IPV6_AUTO_UPDATE_ENTRIES {
            return Err(Ipv6AutoUpdateError::CapacityExceeded(self.entries.len()));
        }
        let ghost before = self.entries@;
        let stored = key.duplicate();
        self.entries.insert(f, stored);
        proof {
            crate::keyed::lemma_insert_len(before, self.entries@, key_fqdn(key), known);
            let after = self.entries@;
            assert forall|i: int| 0 <= i < after.len() implies (#[trigger] after[i]).0 == key_fqdn(
                after[i].1,
            ) && after[i].1.base_domain@ == value_domain_base() by {
                crate::keyed::lemma_value_at(after, i);
                if after[i].0 != key_fqdn(key) {
                    let g = after[i].0;
                    assert(value_of(after, g) == value_of(before, g));
                    assert(has_key(before, g));
                    let k = choose|k: int| 0 <= k < before.len() && (#[trigger] before[k]).0 == g;
                    crate::keyed::lemma_value_at(before, k);
                }
            }
        }
        Ok(key)
    }

    /// Unregisters `subdomain` under `base_domain`, with its update result.
    pub fn remove(&mut self, base_domain: &str, subdomain: &str) -> (r: Result<(), Ipv6AutoUpdateError>)
        requires
            old(self).wf(),
        ensures
            final(self).wf(),
            if is_registered(old(self)@.entries, base_domain@, subdomain@) {
                let f = fqdn_of(base_domain@, subdomain@);
                &&& r is Ok
                &&& value_of(final(self)@.entries, f) is None
                &&& value_of(final(self)@.last_update, f) is None
                &&& forall|g: Seq<char>|
                    g != f ==> value_of(final(self)@.entries, g) == value_of(old(self)@.entries, g)
                        && value_of(final(self)@.last_update, g) == value_of(
                        old(self)@.last_update,
                        g,
                    )
            } else {
                r matches Err(Ipv6AutoUpdateError::NotFound(d, s)) && d@ == base_domain@ && s@
                    == subdomain@ && final(self)@ == old(self)@
            },
    {
        if !str_eq(base_domain, "aon.co.jp") {
            return Err(Ipv6AutoUpdateError::NotFound(base_domain.to_owned(), subdomain.to_owned()));
        }
        let f = join_fqdn(base_domain, subdomain);
        let ghost before = self.entries@;
        match self.entries.remove(f.as_str()) {
            None => Err(Ipv6AutoUpdateError::NotFound(base_domain.to_owned(), subdomain.to_owned())),
            Some(_) => {
                proof {
                    crate::keyed::lemma_remove_len(before, self.entries@, f@);
                    let after = self.entries@;
                    assert forall|i: int| 0 <= i < after.len() implies (#[trigger] after[i]).0
                        == key_fqdn(after[i].1) && after[i].1.base_domain@ == value_domain_base() by {
                        crate::keyed::lemma_value_at(after, i);
                        let g = after[i].0;
                        assert(g != f@);
                        assert(value_of(after, g) == value_of(before, g));
                        let k = choose|k: int| 0 <= k < before.len() && (#[trigger] before[k]).0 == g;
                        crate::keyed::lemma_value_at(before, k);
                    }
                }
                let _ = self.last_update.remove(f.as_str());
                Ok(())
            },
        }
    }

    /// Records the result of an update attempt for `key` made at `now`.
    pub fn record_update_result(
        &mut self,
        key: &Ipv6AutoUpdateKey,
        ok: bool,
        ipv6: Option<String>,
        detail: String,
        now: u64,
    )
        requires
            old(self).wf(),
        ensures
            final(self).wf(),
            final(self)@.entries == old(self)@.entries,
            value_of(final(self)@.last_update, key_fqdn(*key)) == Some(
                Ipv6UpdateStatus { ok, ipv6, detail, checked_at_unix: now },
            ),
            forall|g: Seq<char>|
                g != key_fqdn(*key) ==> value_of(final(self)@.last_update, g) == value_of(
                    old(self)@.last_update,
                    g,
                ),
    {
        self.last_update.insert(key.fqdn(), Ipv6UpdateStatus { ok, ipv6, detail, checked_at_unix: now });
    }

    /// The registered entries, in registration order.
    pub fn snapshot(&self) -> (r: Vec<Ipv6AutoUpdateKey>)
        ensures
            r@.len() == self@.entries.len(),
            forall|i: int| 0 <= i < r@.len() ==> #[trigger] r@[i] == self@.entries[i].1,
    {
        let mut r: Vec<Ipv6AutoUpdateKey> = Vec::new();
        let mut i: usize = 0;
        while i < self.entries.len()
            invariant
                i <= self@.entries.len(),
                r@.len() == i,
                forall|k: int| 0 <= k < i ==> #[trigger] r@[k] == self@.entries[k].1,
            decreases self@.entries.len() - i,
        {
            let (_, v) = self.entries.entry(i);
            r.push(v.duplicate());
            i += 1;
        }
        r
    }

    /// Every registered entry with its last update result, sorted by full
    /// name.
    pub fn list(&self) -> (r: Vec<(Ipv6AutoUpdateKey, Option<Ipv6UpdateStatus>)>)
        requires
            self.wf(),
        ensures
            r@.len() == self@.entries.len(),
            sorted_by_key_fqdn(r@),
            forall|f: Seq<char>|
                has_key(self@.entries, f) <==> exists|i: int|
                    0 <= i < r@.len() && key_fqdn((#[trigger] r@[i]).0) == f,
            forall|i: int|
                0 <= i < r@.len() ==> value_of(self@.entries, key_fqdn((#[trigger] r@[i]).0)) == Some(
                    r@[i].0,
                ) && r@[i].1 == value_of(self@.last_update, key_fqdn(r@[i].0)),
    {
        let order = self.entries.key_order();
        let ghost es = self.entries@;
        let mut out: Vec<(Ipv6AutoUpdateKey, Option<Ipv6UpdateStatus>)> = Vec::new();
        let mut j: usize = 0;
        while j < order.len()
            invariant
                self.wf(),
                es == self@.entries,
                is_key_order(es, order@),
                j <= order@.len(),
                out@.len() == j,
                forall|k: int|
                    0 <= k < j ==> (#[trigger] out@[k]).0 == es[order@[k] as int].1 && out@[k].1
                        == value_of(self@.last_update, es[order@[k] as int].0),
            decreases order@.len() - j,
        {
            let (f, v) = self.entries.entry(order[j]);
            let status = match self.last_update.get(f.as_str()) {
                Some(s) => Some(s.duplicate()),
                None => None,
            };
            out.push((v.duplicate(), status));
            j += 1;
        }
        proof {
            let s = out@;
            assert forall|k: int| 0 <= k < s.len() implies key_fqdn((#[trigger] s[k]).0) == es[order@[k] as int].0 by {
                assert(order@[k] < es.len());
            }
            assert forall|a: int, b: int| 0 <= a < b < s.len() implies lex_lt(
                key_fqdn(#[trigger] s[a].0),
                key_fqdn(#[trigger] s[b].0),
            ) by {
                assert(key_fqdn(s[a].0) == es[order@[a] as int].0);
                assert(key_fqdn(s[b].0) == es[order@[b] as int].0);
            }
            assert forall|f: Seq<char>|
                has_key(es, f) <==> exists|i: int| 0 <= i < s.len() && key_fqdn((#[trigger] s[i]).0) == f by {
                if has_key(es, f) {
                    let k = choose|k: int| 0 <= k < es.len() && (#[trigger] es[k]).0 == f;
                    assert(listed(order@, k));
                    let i = choose|i: int| 0 <= i < order@.len() && order@[i] == k;
                    assert(key_fqdn(s[i].0) == f);
                }
                if exists|i: int| 0 <= i < s.len() && key_fqdn((#[trigger] s[i]).0) == f {
                    let i = choose|i: int| 0 <= i < s.len() && key_fqdn((#[trigger] s[i]).0) == f;
                    assert(es[order@[i] as int].0 == f);
                }
            }
            assert forall|i: int| 0 <= i < s.len() implies value_of(es, key_fqdn((#[trigger] s[i]).0))
                == Some(s[i].0) && s[i].1 == value_of(self@.last_update, key_fqdn(s[i].0)) by {
                crate::keyed::lemma_value_at(es, order@[i] as int);
                assert(key_fqdn(s[i].0) == es[order@[i] as int].0);
            }
        }
        out
    }
}

/// Body of a request enabling AAAA updates for a subdomain.
#[derive(Debug, Clone)]
pub struct SetupIpv6AutoUpdateRequest {
    /// The base domain (only `aon.co.jp` is accepted).
    pub domain: String,
    /// The subdomain (`home` gives `home.aon.co.jp`).
    pub subdomain: String,
}

/// Why a request enabling AAAA updates was refused.
#[derive(Debug, Clone)]
pub enum Ipv6SetupRefusal {
    /// A field is blank (answered with 400).
    EmptyField,
    /// The registry refused the entry.
    Registry(Ipv6AutoUpdateError),
}

/// Enables AAAA updates for the requested subdomain: refused when a field
/// is blank; otherwise registered as by `register`.
pub fn setup_ipv6_auto_update(registry: &mut Ipv6AutoUpdateRegistry, body: SetupIpv6AutoUpdateRequest) -> (r:
    Result<Ipv6AutoUpdateKey, Ipv6SetupRefusal>)
    requires
        old(registry).wf(),
    ensures
        final(registry).wf(),
        final(registry)@.last_update == old(registry)@.last_update,
        trim(body.domain@).len() == 0 || trim(body.subdomain@).len() == 0 ==> (r matches Err(
            Ipv6SetupRefusal::EmptyField,
        )) && final(registry)@ == old(registry)@,
        trim(body.domain@).len() > 0 && trim(body.subdomain@).len() > 0 ==> ({
            let f = fqdn_of(body.domain@, body.subdomain@);
            if body.domain@ != value_domain_base() {
                r matches Err(Ipv6SetupRefusal::Registry(Ipv6AutoUpdateError::UnsupportedBaseDomain(d)))
                    && d == body.domain && final(registry)@ == old(registry)@
            } else if !has_key(old(registry)@.entries, f) && old(registry)@.entries.len()
                >= MAX_IPV6_AUTO_UPDATE_ENTRIES {
                r matches Err(Ipv6SetupRefusal::Registry(Ipv6AutoUpdateError::CapacityExceeded(n)))
                    && n == old(registry)@.entries.len() && final(registry)@ == old(registry)@
            } else {
                &&& r matches Ok(k) && k.base_domain == body.domain && k.subdomain == body.subdomain
                &&& value_of(final(registry)@.entries, f) == Some(
                    Ipv6AutoUpdateKey { base_domain: body.domain, subdomain: body.subdomain },
                )
                &&& forall|g: Seq<char>|
                    g != f ==> value_of(final(registry)@.entries, g) == value_of(old(registry)@.entries, g)
            }
        }),
{
    if !crate::ddns::duckdns_settings_usable(body.domain.as_str(), body.subdomain.as_str()) {
        return Err(Ipv6SetupRefusal::EmptyField);
    }
    match registry.register(body.domain, body.subdomain) {
        Ok(k) => Ok(k),
        Err(e) => Err(Ipv6SetupRefusal::Registry(e)),
    }
}

} // verus!
