//! Multi-tenant domain routing: which backend serves a `Host` header and a
//! request path.
//!
//! A tenant is keyed by its host and an optional path prefix. Several
//! tenants may share a host as long as their prefixes differ; a request is
//! routed to the tenant with the longest matching prefix, and otherwise to
//! the host's tenant without a prefix.

use vstd::prelude::*;
use crate::text::{
    before_char, before_char_exec, push_str, starts_with, str_eq, str_starts_with,
    strip_prefix,
};
use crate::web_vhost::opt_string_view;

verus! {

/// Kind of backend a tenant is proxied to.
#[derive(Debug, Clone, Copy, PartialEq, Eq, Structural)]
pub enum BackendKind {
    OpenRuno,
    PoemCosmoTauri,
}

/// One tenant: the unit of declarative provisioning.
#[derive(Debug, Clone)]
pub struct TenantConfig {
    /// `Host` header value routed to this tenant.
    pub host: String,
    pub backend: BackendKind,
    /// Address the requests are proxied to.
    pub backend_addr: String,
    /// Connection string of the tenant's database.
    pub db_uri: String,
    /// Optional path prefix; requests under it go to this tenant.
    pub path_prefix: Option<String>,
}

/// Mathematical value of a [`TenantConfig`].
pub struct TenantView {
    pub host: Seq<char>,
    pub backend: BackendKind,
    pub backend_addr: Seq<char>,
    pub db_uri: Seq<char>,
    pub path_prefix: Option<Seq<char>>,
}

impl View for TenantConfig {
    type V = TenantView;

    open spec fn view(&self) -> TenantView {
        TenantView {
            host: self.host@,
            backend: self.backend,
            backend_addr: self.backend_addr@,
            db_uri: self.db_uri@,
            path_prefix: opt_string_view(self.path_prefix),
        }
    }
}

impl TenantConfig {
    /// A field-by-field copy.
    pub fn duplicate(&self) -> (r: Self)
        ensures
            r@ == self@,
    {
        TenantConfig {
            host: self.host.clone(),
            backend: self.backend,
            backend_addr: self.backend_addr.clone(),
            db_uri: self.db_uri.clone(),
            path_prefix: match &self.path_prefix {
                Some(p) => Some(p.clone()),
                None => None,
            },
        }
    }
}

/// A routed tenant, as handed to the proxy.
#[derive(Debug, Clone)]
pub struct TenantHandle {
    pub config: TenantConfig,
}

/// Why a table operation was refused.
#[derive(Debug, Clone)]
pub enum TenantError {
    /// Nothing is registered under the host (and prefix).
    NotFound(String),
    /// The host and prefix are registered already.
    AlreadyExists(String),
}

impl TenantError {
    /// Human-readable description of the error.
    pub fn message(&self) -> (r: String)
        ensures
            r@ == (match self {
                TenantError::NotFound(h) => "host '"@ + h@ + "' is not registered"@,
                TenantError::AlreadyExists(h) => "host '"@ + h@ + "' is already registered"@,
            }),
    {
        let mut r = String::new();
        push_str(&mut r, "host '");
        match self {
            TenantError::NotFound(h) => {
                push_str(&mut r, h.as_str());
                push_str(&mut r, "' is not registered");
            },
            TenantError::AlreadyExists(h) => {
                push_str(&mut r, h.as_str());
                push_str(&mut r, "' is already registered");
            },
        }
        r
    }
}

/// Views of a sequence of tenants.
pub open spec fn tenants_view(s: Seq<TenantConfig>) -> Seq<TenantView> {
    Seq::new(s.len(), |i: int| s[i]@)
}

/// The host part of a `Host` header: everything before the first `:`.
pub open spec fn host_part(header: Seq<char>) -> Seq<char> {
    before_char(header, ':')
}

/// Whether `t` occupies the slot `(host, prefix)`.
pub open spec fn same_slot(t: TenantView, host: Seq<char>, prefix: Option<Seq<char>>) -> bool {
    t.host == host && t.path_prefix == prefix
}

/// Whether some tenant of `s` occupies the slot `(host, prefix)`.
pub open spec fn slot_taken(s: Seq<TenantView>, host: Seq<char>, prefix: Option<Seq<char>>) -> bool {
    exists|i: int| 0 <= i < s.len() && same_slot(#[trigger] s[i], host, prefix)
}

/// `s` without the tenants in the slot `(host, prefix)`, order kept.
pub open spec fn without_slot(s: Seq<TenantView>, host: Seq<char>, prefix: Option<Seq<char>>) -> Seq<
    TenantView,
>
    decreases s.len(),
{
    if s.len() == 0 {
        s
    } else {
        let rest = without_slot(s.drop_last(), host, prefix);
        if same_slot(s.last(), host, prefix) {
            rest
        } else {
            rest.push(s.last())
        }
    }
}

/// Whether `t` is a candidate for prefix routing of `path` under `host`.
pub open spec fn prefix_candidate(t: TenantView, host: Seq<char>, path: Seq<char>) -> bool {
    &&& t.host == host
    &&& t.path_prefix is Some
    &&& t.path_prefix->0.len() > 0
    &&& starts_with(path, t.path_prefix->0)
}

/// Length of a tenant's prefix (zero without one).
pub open spec fn prefix_len(t: TenantView) -> nat {
    match t.path_prefix {
        Some(p) => p.len(),
        None => 0,
    }
}

/// `i` is the tenant chosen by prefix routing: a candidate with the
/// longest prefix, the last such one where several tie.
pub open spec fn is_prefix_choice(s: Seq<TenantView>, host: Seq<char>, path: Seq<char>, i: int) -> bool {
    &&& 0 <= i < s.len()
    &&& prefix_candidate(s[i], host, path)
    &&& forall|j: int|
        0 <= j < s.len() && prefix_candidate(#[trigger] s[j], host, path) ==> prefix_len(s[j])
            <= prefix_len(s[i])
    &&& forall|j: int|
        i < j < s.len() && prefix_candidate(#[trigger] s[j], host, path) ==> prefix_len(s[j])
            < prefix_len(s[i])
}

/// Whether any tenant is a candidate for prefix routing.
pub open spec fn has_prefix_candidate(s: Seq<TenantView>, host: Seq<char>, path: Seq<char>) -> bool {
    exists|j: int| 0 <= j < s.len() && prefix_candidate(#[trigger] s[j], host, path)
}

/// `i` is the first tenant of `host` without a prefix.
pub open spec fn is_host_only_choice(s: Seq<TenantView>, host: Seq<char>, i: int) -> bool {
    &&& 0 <= i < s.len()
    &&& same_slot(s[i], host, None)
    &&& forall|j: int| 0 <= j < i ==> !same_slot(#[trigger] s[j], host, None)
}

/// Whether the slot `(host, no prefix)` is taken.
pub open spec fn has_host_only(s: Seq<TenantView>, host: Seq<char>) -> bool {
    slot_taken(s, host, None)
}

/// `strip_path_prefix` as a function on character sequences.
pub open spec fn strip_path_prefix_spec(path: Seq<char>, prefix: Seq<char>) -> Seq<char> {
    let stripped = match strip_prefix(path, prefix) {
        Some(rest) => rest,
        None => path,
    };
    if stripped.len() == 0 {
        seq!['/']
    } else if stripped[0] == '/' {
        stripped
    } else {
        seq!['/'] + stripped
    }
}

/// The path handed to a tenant's backend: `path` without `prefix`, always
/// starting with `/` (`"/"` when nothing is left).
pub fn strip_path_prefix(path: &str, prefix: &str) -> (r: String)
    ensures
        r@ == strip_path_prefix_spec(path@, prefix@),
{
    let v = crate::text::chars_of(path);
    let start: usize = if str_starts_with(path, prefix) {
        prefix.unicode_len()
    } else {
        0
    };
    proof {
        if starts_with(path@, prefix@) {
            assert(path@.skip(prefix@.len() as int) =~= v@.subrange(start as int, v@.len() as int));
        } else {
            assert(path@ =~= v@.subrange(0, v@.len() as int));
        }
    }
    if start == v.len() {
        let mut r = String::new();
        crate::text::push_char(&mut r, '/');
        proof {
            assert(r@ =~= seq!['/']);
        }
        r
    } else if v[start] == '/' {
        crate::text::substring(&v, start, v.len())
    } else {
        let mut r = String::new();
        crate::text::push_char(&mut r, '/');
        let rest = crate::text::substring(&v, start, v.len());
        push_str(&mut r, rest.as_str());
        r
    }
}

/// All tenants, in the order they were registered.
pub struct TenantRegistry {
    entries: Vec<TenantConfig>,
}

impl View for TenantRegistry {
    type V = Seq<TenantView>;

    closed spec fn view(&self) -> Seq<TenantView> {
        tenants_view(self.entries@)
    }
}

proof fn lemma_without_slot_absent(s: Seq<TenantView>, host: Seq<char>, prefix: Option<Seq<char>>)
    ensures
        !slot_taken(without_slot(s, host, prefix), host, prefix),
        without_slot(s, host, prefix).len() <= s.len(),
    decreases s.len(),
{
    if s.len() > 0 {
        lemma_without_slot_absent(s.drop_last(), host, prefix);
        let rest = without_slot(s.drop_last(), host, prefix);
        if !same_slot(s.last(), host, prefix) {
            assert forall|i: int|
                0 <= i < rest.push(s.last()).len() implies !same_slot(
                #[trigger] rest.push(s.last())[i],
                host,
                prefix,
            ) by {
                if i < rest.len() {
                    assert(rest.push(s.last())[i] == rest[i]);
                }
            }
        }
    }
}

proof fn lemma_without_slot_untouched(s: Seq<TenantView>, host: Seq<char>, prefix: Option<Seq<char>>)
    requires
        !slot_taken(s, host, prefix),
    ensures
        without_slot(s, host, prefix) == s,
    decreases s.len(),
{
    if s.len() > 0 {
        assert(!same_slot(s[s.len() - 1], host, prefix));
        assert forall|i: int| 0 <= i < s.drop_last().len() implies !same_slot(
            #[trigger] s.drop_last()[i],
            host,
            prefix,
        ) by {
            assert(s.drop_last()[i] == s[i]);
        }
        lemma_without_slot_untouched(s.drop_last(), host, prefix);
        assert(s.drop_last().push(s.last()) =~= s);
    }
}

/// Whether the slot of `t` holds exactly the element `t`, at index `s.len() - 1`.
proof fn lemma_upsert_shape(s: Seq<TenantView>, t: TenantView)
    ensures
        ({
            let u = without_slot(s, t.host, t.path_prefix).push(t);
            &&& u.last() == t
            &&& forall|i: int|
                0 <= i < u.len() - 1 ==> !same_slot(#[trigger] u[i], t.host, t.path_prefix)
        }),
{
    lemma_without_slot_absent(s, t.host, t.path_prefix);
    let w = without_slot(s, t.host, t.path_prefix);
    assert forall|i: int| 0 <= i < w.push(t).len() - 1 implies !same_slot(
        #[trigger] w.push(t)[i],
        t.host,
        t.path_prefix,
    ) by {
        assert(w.push(t)[i] == w[i]);
    }
}

impl TenantRegistry {
    /// An empty table.
    pub fn new() -> (r: Self)
        ensures
            r@ == Seq::<TenantView>::empty(),
    {
        let r = TenantRegistry { entries: Vec::new() };
        assert(r@ =~= Seq::<TenantView>::empty());
        r
    }

    /// Number of tenants.
    pub fn len(&self) -> (n: usize)
        ensures
            n == self@.len(),
    {
        self.entries.len()
    }

    /// Whether the table holds no tenant.
    pub fn is_empty(&self) -> (b: bool)
        ensures
            b == (self@.len() == 0),
    {
        self.entries.len() == 0
    }

    /// All tenants, in registration order.
    pub fn list(&self) -> (r: Vec<TenantConfig>)
        ensures
            tenants_view(r@) == self@,
    {
        let mut r: Vec<TenantConfig> = Vec::new();
        let mut i: usize = 0;
        while i < self.entries.len()
            invariant
                i <= self.entries.len(),
                tenants_view(r@) == tenants_view(self.entries@).take(i as int),
            decreases self.entries.len() - i,
        {
            let ghost before = r@;
            r.push(self.entries[i].duplicate());
            assert(tenants_view(r@) =~= tenants_view(before).push(self@[i as int]));
            assert(tenants_view(self.entries@).take(i + 1) =~= tenants_view(self.entries@).take(
                i as int,
            ).push(self@[i as int]));
            i += 1;
        }
        assert(tenants_view(self.entries@).take(i as int) =~= tenants_view(self.entries@));
        r
    }

    /// Whether any tenant is registered under `host` (with or without a
    /// prefix).
    pub fn contains_host(&self, host: &str) -> (b: bool)
        ensures
            b == (exists|i: int| 0 <= i < self@.len() && (#[trigger] self@[i]).host == host@),
    {
        let mut i: usize = 0;
        while i < self.entries.len()
            invariant
                i <= self.entries.len(),
                forall|k: int| 0 <= k < i ==> (#[trigger] self@[k]).host != host@,
            decreases self.entries.len() - i,
        {
            if str_eq(self.entries[i].host.as_str(), host) {
                assert(self@[i as int].host == host@);
                return true;
            }
            i += 1;
        }
        false
    }

    /// Index of the tenant in the slot `(host, prefix)`, if any.
    fn find_slot(&self, host: &str, prefix: &Option<String>) -> (r: Option<usize>)
        ensures
            match r {
                Some(i) => i < self@.len() && same_slot(
                    self@[i as int],
                    host@,
                    opt_string_view(*prefix),
                ),
                None => !slot_taken(self@, host@, opt_string_view(*prefix)),
            },
    {
        let mut i: usize = 0;
        while i < self.entries.len()
            invariant
                i <= self.entries.len(),
                forall|k: int|
                    0 <= k < i ==> !same_slot(
                        #[trigger] self@[k],
                        host@,
                        opt_string_view(*prefix),
                    ),
            decreases self.entries.len() - i,
        {
            let e = &self.entries[i];
            if str_eq(e.host.as_str(), host) && same_prefix(&e.path_prefix, prefix) {
                return Some(i);
            }
            i += 1;
        }
        None
    }

    /// Registers `config`. Refused with `AlreadyExists` when its host and
    /// prefix are registered already.
    pub fn add(&mut self, config: TenantConfig) -> (r: Result<(), TenantError>)
        ensures
            slot_taken(old(self)@, config@.host, config@.path_prefix) ==> {
                &&& r matches Err(TenantError::AlreadyExists(h)) && h@ == config@.host
                &&& final(self)@ == old(self)@
            },
            !slot_taken(old(self)@, config@.host, config@.path_prefix) ==> {
                &&& r is Ok
                &&& final(self)@ == old(self)@.push(config@)
            },
    {
        match self.find_slot(config.host.as_str(), &config.path_prefix) {
            Some(_) => Err(TenantError::AlreadyExists(config.host)),
            None => {
                self.entries.push(config);
                assert(self@ =~= old(self)@.push(config@));
                Ok(())
            },
        }
    }

    /// Copy of the tenants outside the slot `(host, prefix)`.
    fn entries_without(&self, host: &str, prefix: &Option<String>) -> (r: Vec<TenantConfig>)
        ensures
            tenants_view(r@) == without_slot(self@, host@, opt_string_view(*prefix)),
    {
        let ghost pv = opt_string_view(*prefix);
        let mut r: Vec<TenantConfig> = Vec::new();
        let mut i: usize = 0;
        assert(self@.take(0) =~= Seq::<TenantView>::empty());
        assert(tenants_view(r@) =~= Seq::<TenantView>::empty());
        while i < self.entries.len()
            invariant
                i <= self.entries.len(),
                tenants_view(r@) == without_slot(self@.take(i as int), host@, pv),
                pv == opt_string_view(*prefix),
            decreases self.entries.len() - i,
        {
            let e = &self.entries[i];
            assert(self@.take(i + 1).drop_last() =~= self@.take(i as int));
            assert(self@.take(i + 1).last() == self@[i as int]);
            if !(str_eq(e.host.as_str(), host) && same_prefix(&e.path_prefix, prefix)) {
                let ghost before = r@;
                r.push(e.duplicate());
                assert(tenants_view(r@) =~= tenants_view(before).push(self@[i as int]));
            }
            i += 1;
        }
        assert(self@.take(i as int) =~= self@);
        r
    }

    /// Registers `config`, replacing whatever held its host and prefix.
    pub fn upsert(&mut self, config: TenantConfig)
        ensures
            final(self)@ == without_slot(old(self)@, config@.host, config@.path_prefix).push(
                config@,
            ),
    {
        let mut kept = self.entries_without(config.host.as_str(), &config.path_prefix);
        kept.push(config);
        self.entries = kept;
        assert(self@ =~= without_slot(old(self)@, config@.host, config@.path_prefix).push(
            config@,
        ));
    }

    /// Removes the tenant registered under `host` without a prefix.
    pub fn remove(&mut self, host: &str) -> (r: Result<(), TenantError>)
        ensures
            slot_taken(old(self)@, host@, None) ==> r is Ok && final(self)@ == without_slot(
                old(self)@,
                host@,
                None,
            ),
            !slot_taken(old(self)@, host@, None) ==> final(self)@ == old(self)@ && (r matches Err(
                TenantError::NotFound(h),
            ) && h@ == host@),
    {
        self.remove_prefixed(host, None)
    }

    /// Removes the tenant registered under `host` and `path_prefix`.
    pub fn remove_prefixed(&mut self, host: &str, path_prefix: Option<&str>) -> (r: Result<
        (),
        TenantError,
    >)
        ensures
            ({
                let pv = match path_prefix {
                    Some(p) => Some(p@),
                    None => None,
                };
                &&& slot_taken(old(self)@, host@, pv) ==> r is Ok && final(self)@ == without_slot(
                    old(self)@,
                    host@,
                    pv,
                )
                &&& !slot_taken(old(self)@, host@, pv) ==> final(self)@ == old(self)@ && (r matches Err(
                    TenantError::NotFound(h),
                ) && h@ == host@)
            }),
    {
        let prefix: Option<String> = match path_prefix {
            Some(p) => Some(p.to_owned()),
            None => None,
        };
        match self.find_slot(host, &prefix) {
            None => Err(TenantError::NotFound(host.to_owned())),
            Some(_) => {
                let kept = self.entries_without(host, &prefix);
                self.entries = kept;
                Ok(())
            },
        }
    }

    /// Registers every tenant of `configs`, in order, without checking for
    /// duplicates (bulk provisioning from a configuration file). Returns
    /// how many were loaded.
    pub fn load(&mut self, configs: Vec<TenantConfig>) -> (n: usize)
        ensures
            n == configs.len(),
            final(self)@ == old(self)@ + tenants_view(configs@),
    {
        let mut i: usize = 0;
        while i < configs.len()
            invariant
                i <= configs.len(),
                self@ == old(self)@ + tenants_view(configs@).take(i as int),
            decreases configs.len() - i,
        {
            let ghost before = self@;
            self.entries.push(configs[i].duplicate());
            assert(self@ =~= before.push(configs@[i as int]@));
            assert(tenants_view(configs@).take(i + 1) =~= tenants_view(configs@).take(
                i as int,
            ).push(configs@[i as int]@));
            assert(self@ =~= old(self)@ + tenants_view(configs@).take(i + 1));
            i += 1;
        }
        assert(tenants_view(configs@).take(i as int) =~= tenants_view(configs@));
        configs.len()
    }

    /// Index of the tenant chosen by prefix routing for the host of
    /// `host_header` and `path`.
    fn prefix_index(&self, host_header: &str, path: &str) -> (r: Option<usize>)
        ensures
            match r {
                Some(i) => is_prefix_choice(self@, host_part(host_header@), path@, i as int),
                None => !has_prefix_candidate(self@, host_part(host_header@), path@),
            },
    {
        let host = before_char_exec(host_header, ':');
        let ghost h = host_part(host_header@);
        let mut best: Option<usize> = None;
        let mut i: usize = 0;
        while i < self.entries.len()
            invariant
                i <= self.entries.len(),
                host@ == h,
                match best {
                    Some(b) => is_prefix_choice(self@.take(i as int), h, path@, b as int),
                    None => !has_prefix_candidate(self@.take(i as int), h, path@),
                },
            decreases self.entries.len() - i,
        {
            let e = &self.entries[i];
            let ghost s1 = self@.take(i + 1);
            assert(s1 =~= self@.take(i as int).push(self@[i as int]));
            let candidate = match &e.path_prefix {
                Some(p) => str_eq(e.host.as_str(), host.as_str()) && p.as_str().unicode_len() > 0
                    && str_starts_with(path, p.as_str()),
                None => false,
            };
            assert(candidate == prefix_candidate(self@[i as int], h, path@));
            if candidate {
                let len_i = match &e.path_prefix {
                    Some(p) => p.as_str().unicode_len(),
                    None => 0,
                };
                assert(len_i == prefix_len(self@[i as int]));
                let take = match best {
                    Some(b) => {
                        let len_b = match &self.entries[b].path_prefix {
                            Some(p) => p.as_str().unicode_len(),
                            None => 0,
                        };
                        assert(len_b == prefix_len(self@[b as int]));
                        len_i >= len_b
                    },
                    None => true,
                };
                if take {
                    best = Some(i);
                }
            }
            proof {
                assert forall|j: int| 0 <= j < s1.len() implies #[trigger] s1[j] == self@[j] by {}
            }
            i += 1;
        }
        assert(self@.take(i as int) =~= self@);
        best
    }

    /// Index of the first tenant of the host of `host_header` without a
    /// prefix.
    fn host_only_index(&self, host_header: &str) -> (r: Option<usize>)
        ensures
            match r {
                Some(i) => is_host_only_choice(self@, host_part(host_header@), i as int),
                None => !has_host_only(self@, host_part(host_header@)),
            },
    {
        let host = before_char_exec(host_header, ':');
        let mut i: usize = 0;
        while i < self.entries.len()
            invariant
                i <= self.entries.len(),
                host@ == host_part(host_header@),
                forall|k: int| 0 <= k < i ==> !same_slot(#[trigger] self@[k], host@, None),
            decreases self.entries.len() - i,
        {
            let e = &self.entries[i];
            if e.path_prefix.is_none() && str_eq(e.host.as_str(), host.as_str()) {
                return Some(i);
            }
            i += 1;
        }
        None
    }

    /// The tenant whose non-empty prefix starts `path`, the longest such
    /// prefix winning (the last registered among equals), under the host
    /// of `host_header` (its part before any `:`). Tenants without a
    /// prefix are not considered.
    pub fn resolve_prefix_only(&self, host_header: &str, path: &str) -> (r: Option<TenantHandle>)
        ensures
            r is None <==> !has_prefix_candidate(self@, host_part(host_header@), path@),
            r matches Some(h) ==> exists|i: int|
                is_prefix_choice(self@, host_part(host_header@), path@, i) && #[trigger] self@[i]
                    == h.config@,
    {
        match self.prefix_index(host_header, path) {
            Some(i) => Some(TenantHandle { config: self.entries[i].duplicate() }),
            None => None,
        }
    }

    /// The first tenant registered under the host of `host_header` without
    /// a prefix.
    pub fn resolve_host_only(&self, host_header: &str) -> (r: Option<TenantHandle>)
        ensures
            r is None <==> !has_host_only(self@, host_part(host_header@)),
            r matches Some(h) ==> exists|i: int|
                is_host_only_choice(self@, host_part(host_header@), i) && #[trigger] self@[i]
                    == h.config@,
    {
        match self.host_only_index(host_header) {
            Some(i) => Some(TenantHandle { config: self.entries[i].duplicate() }),
            None => None,
        }
    }

    /// Routing of a request: the prefix tenant when one matches, else the
    /// host's tenant without a prefix.
    pub fn resolve(&self, host_header: &str, path: &str) -> (r: Option<TenantHandle>)
        ensures
            ({
                let h = host_part(host_header@);
                &&& r is None <==> !has_prefix_candidate(self@, h, path@) && !has_host_only(
                    self@,
                    h,
                )
                &&& has_prefix_candidate(self@, h, path@) ==> (r matches Some(t) && exists|i: int|
                    is_prefix_choice(self@, h, path@, i) && #[trigger] self@[i] == t.config@)
                &&& !has_prefix_candidate(self@, h, path@) && has_host_only(self@, h)
                    ==> (r matches Some(t) && exists|i: int|
                    is_host_only_choice(self@, h, i) && #[trigger] self@[i] == t.config@)
            }),
    {
        match self.resolve_prefix_only(host_header, path) {
            Some(t) => Some(t),
            None => self.resolve_host_only(host_header),
        }
    }
}

/// Whether two optional prefixes hold the same text.
fn same_prefix(a: &Option<String>, b: &Option<String>) -> (r: bool)
    ensures
        r == (opt_string_view(*a) == opt_string_view(*b)),
{
    match (a, b) {
        (Some(x), Some(y)) => str_eq(x.as_str(), y.as_str()),
        (None, None) => true,
        _ => false,
    }
}

/// After `upsert`, the tenant just written is the only one in its slot,
/// and it is the last one.
pub proof fn law_upsert_owns_its_slot(before: Seq<TenantView>, t: TenantView)
    ensures
        ({
            let after = without_slot(before, t.host, t.path_prefix).push(t);
            &&& after.last() == t
            &&& forall|i: int|
                0 <= i < after.len() - 1 ==> !same_slot(#[trigger] after[i], t.host, t.path_prefix)
        }),
{
    lemma_upsert_shape(before, t);
}

/// A successful `add` followed by `remove_prefixed` of the same host and
/// prefix gives back the table as it was.
pub proof fn law_add_then_remove_restores(before: Seq<TenantView>, t: TenantView)
    requires
        !slot_taken(before, t.host, t.path_prefix),
    ensures
        slot_taken(before.push(t), t.host, t.path_prefix),
        without_slot(before.push(t), t.host, t.path_prefix) == before,
{
    assert(before.push(t).drop_last() =~= before);
    assert(before.push(t)[before.len() as int] == t);
    lemma_without_slot_untouched(before, t.host, t.path_prefix);
}

/// After a removal of `(host, prefix)` no tenant is left in that slot;
/// in particular, after removing a host's tenant without a prefix, routing
/// by host alone finds nothing for that host.
pub proof fn law_removed_slot_is_empty(
    before: Seq<TenantView>,
    host: Seq<char>,
    prefix: Option<Seq<char>>,
)
    ensures
        !slot_taken(without_slot(before, host, prefix), host, prefix),
        !has_host_only(without_slot(before, host, None), host),
{
    lemma_without_slot_absent(before, host, prefix);
    lemma_without_slot_absent(before, host, None);
}


// ---------------------------------------------------------------------------
// TLS certificates of tenants
// ---------------------------------------------------------------------------

/// Body of `POST /admin/tenants/:host/tls`: a PEM certificate chain and
/// its PEM private key.
#[derive(Debug, Clone)]
pub struct UpsertTlsCertRequest {
    pub cert_pem: String,
    pub key_pem: String,
}

/// The answer to registering a certificate for `host`, from what the
/// certificate store said of the PEM texts: 200 when it took them, 400
/// with its complaint otherwise.
pub fn tls_upsert_reply(host: &str, result: Result<(), String>) -> (r: (u16, String))
    ensures
        match result {
            Ok(()) => r.0 == 200 && r.1@ == "tls certificate registered for '"@ + host@ + "'"@,
            Err(e) => r.0 == 400 && r.1@ == "invalid certificate/key for '"@ + host@ + "': "@ + e@,
        },
{
    let mut m = String::new();
    match result {
        Ok(()) => {
            push_str(&mut m, "tls certificate registered for '");
            push_str(&mut m, host);
            push_str(&mut m, "'");
            (200, m)
        },
        Err(e) => {
            push_str(&mut m, "invalid certificate/key for '");
            push_str(&mut m, host);
            push_str(&mut m, "': ");
            push_str(&mut m, e.as_str());
            (400, m)
        },
    }
}

/// The answer to removing the certificate of `host` (removing one that
/// is not there succeeds): 200, or 500 with the store's error.
pub fn tls_remove_reply(host: &str, result: Result<(), String>) -> (r: (u16, String))
    ensures
        match result {
            Ok(()) => r.0 == 200 && r.1@ == "tls certificate removed for '"@ + host@ + "' (if it existed)"@,
            Err(e) => r.0 == 500 && r.1@ == e@,
        },
{
    match result {
        Ok(()) => {
            let mut m = String::new();
            push_str(&mut m, "tls certificate removed for '");
            push_str(&mut m, host);
            push_str(&mut m, "' (if it existed)");
            (200, m)
        },
        Err(e) => (500, e),
    }
}

} // verus!
