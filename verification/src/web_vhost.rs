//! Static-file and PHP site virtual hosts (host name to document root).
//!
//! File-system paths are held as text (`String`); the program that serves
//! the sites turns them into `std::path::PathBuf`s.

use vstd::prelude::*;
use crate::rewrite::{RewriteRule, RuleView};
use crate::text::{before_char, before_char_exec, clone_strings, find_char, push_str, str_eq};

verus! {

/// Behaviour of a static site when the requested file does not exist.
#[derive(Debug, Clone, Copy, PartialEq, Eq, Structural)]
pub enum CompatMode {
    /// Fall back to `index.html` (Apache `FallbackResource` style).
    Apache,
    /// Plain 404 (nginx `try_files $uri $uri/ =404` style).
    Nginx,
}

impl Default for CompatMode {
    /// The default is `Nginx`, the strict behaviour.
    fn default() -> (r: Self)
        ensures
            r == CompatMode::Nginx,
    {
        CompatMode::Nginx
    }
}

/// How a PHP-enabled site is served.
#[derive(Debug, Clone, PartialEq, Eq)]
pub enum PhpMode {
    /// A `php -S` built-in server started for the document root.
    BuiltinServer,
    /// An already running php-fpm at a TCP address or Unix socket path.
    FastCgi { fastcgi_addr: String },
}

impl Default for PhpMode {
    /// The default is `BuiltinServer`.
    fn default() -> (r: Self)
        ensures
            r is BuiltinServer,
    {
        PhpMode::BuiltinServer
    }
}

/// Basic authentication settings read from a server configuration.
#[derive(Debug, Clone, PartialEq, Eq)]
pub struct BasicAuthConfig {
    /// Realm shown in the authentication dialog.
    pub realm: String,
    /// Path of the `htpasswd`-style password file.
    pub user_file: String,
}

/// TLS certificate file locations read from a server configuration.
#[derive(Debug, Clone, PartialEq, Eq)]
pub struct TlsCertConfig {
    /// Path of the certificate (chain) file.
    pub cert_path: String,
    /// Path of the private key file, when one was given.
    pub key_path: Option<String>,
}

/// Plain IP/CIDR allow and deny lists.
#[derive(Debug, Clone, Default, PartialEq, Eq)]
pub struct AccessControlConfig {
    pub allow: Vec<String>,
    pub deny: Vec<String>,
}

/// One static/PHP site.
#[derive(Debug, Clone)]
pub struct WebVhostConfig {
    /// Host header value the site answers to.
    pub host: String,
    /// Absolute document root.
    pub docroot: String,
    /// Whether PHP may run.
    pub php_enabled: bool,
    pub compat_mode: CompatMode,
    pub php_mode: PhpMode,
    /// Rewrite/redirect rules, tried in order.
    pub rewrite_rules: Vec<RewriteRule>,
    pub basic_auth: Option<BasicAuthConfig>,
    pub tls_cert: Option<TlsCertConfig>,
    pub access_control: Option<AccessControlConfig>,
}

/// Errors of the virtual host registry.
#[derive(Debug)]
pub enum WebVhostError {
    /// No site is registered for this host.
    NotFound(String),
}

/// The value `php_enabled` takes when a configuration file omits it.
pub fn default_php_enabled() -> (r: bool)
    ensures
        r,
{
    true
}

// ---------------------------------------------------------------------------
// Models
// ---------------------------------------------------------------------------

/// Model of a PHP mode.
pub enum PhpModeView {
    BuiltinServer,
    FastCgi(Seq<char>),
}

/// Model of basic authentication settings: realm and password file.
pub struct BasicAuthView {
    pub realm: Seq<char>,
    pub user_file: Seq<char>,
}

/// Model of TLS certificate locations.
pub struct TlsCertView {
    pub cert_path: Seq<char>,
    pub key_path: Option<Seq<char>>,
}

/// Model of the allow/deny lists.
pub struct AccessControlView {
    pub allow: Seq<Seq<char>>,
    pub deny: Seq<Seq<char>>,
}

/// Model of a site.
pub struct VhostView {
    pub host: Seq<char>,
    pub docroot: Seq<char>,
    pub php_enabled: bool,
    pub compat_mode: CompatMode,
    pub php_mode: PhpModeView,
    pub rewrite_rules: Seq<RuleView>,
    pub basic_auth: Option<BasicAuthView>,
    pub tls_cert: Option<TlsCertView>,
    pub access_control: Option<AccessControlView>,
}

/// The models of a list of strings.
pub open spec fn strings_view(v: Seq<String>) -> Seq<Seq<char>> {
    v.map_values(|s: String| s@)
}

/// Model of an optional string.
pub open spec fn opt_string_view(o: Option<String>) -> Option<Seq<char>> {
    match o {
        Some(s) => Some(s@),
        None => None,
    }
}

impl View for PhpMode {
    type V = PhpModeView;

    open spec fn view(&self) -> PhpModeView {
        match self {
            PhpMode::BuiltinServer => PhpModeView::BuiltinServer,
            PhpMode::FastCgi { fastcgi_addr } => PhpModeView::FastCgi(fastcgi_addr@),
        }
    }
}

impl View for BasicAuthConfig {
    type V = BasicAuthView;

    open spec fn view(&self) -> BasicAuthView {
        BasicAuthView { realm: self.realm@, user_file: self.user_file@ }
    }
}

impl View for TlsCertConfig {
    type V = TlsCertView;

    open spec fn view(&self) -> TlsCertView {
        TlsCertView { cert_path: self.cert_path@, key_path: opt_string_view(self.key_path) }
    }
}

impl View for AccessControlConfig {
    type V = AccessControlView;

    open spec fn view(&self) -> AccessControlView {
        AccessControlView { allow: strings_view(self.allow@), deny: strings_view(self.deny@) }
    }
}

/// Model of an optional value with a view.
pub open spec fn opt_view<T: View>(o: Option<T>) -> Option<T::V> {
    match o {
        Some(t) => Some(t@),
        None => None,
    }
}

impl View for WebVhostConfig {
    type V = VhostView;

    open spec fn view(&self) -> VhostView {
        VhostView {
            host: self.host@,
            docroot: self.docroot@,
            php_enabled: self.php_enabled,
            compat_mode: self.compat_mode,
            php_mode: self.php_mode@,
            rewrite_rules: crate::rewrite::rules_view(self.rewrite_rules@),
            basic_auth: opt_view(self.basic_auth),
            tls_cert: opt_view(self.tls_cert),
            access_control: opt_view(self.access_control),
        }
    }
}


impl PhpMode {
    /// A field-by-field copy.
    pub fn duplicate(&self) -> (r: Self)
        ensures
            r@ == self@,
    {
        match self {
            PhpMode::BuiltinServer => PhpMode::BuiltinServer,
            PhpMode::FastCgi { fastcgi_addr } => PhpMode::FastCgi { fastcgi_addr: fastcgi_addr.clone() },
        }
    }
}

impl BasicAuthConfig {
    /// A field-by-field copy.
    pub fn duplicate(&self) -> (r: Self)
        ensures
            r@ == self@,
    {
        BasicAuthConfig { realm: self.realm.clone(), user_file: self.user_file.clone() }
    }
}

impl TlsCertConfig {
    /// A field-by-field copy.
    pub fn duplicate(&self) -> (r: Self)
        ensures
            r@ == self@,
    {
        TlsCertConfig {
            cert_path: self.cert_path.clone(),
            key_path: match &self.key_path {
                Some(k) => Some(k.clone()),
                None => None,
            },
        }
    }
}

impl AccessControlConfig {
    /// A field-by-field copy.
    pub fn duplicate(&self) -> (r: Self)
        ensures
            r@ == self@,
    {
        AccessControlConfig { allow: clone_strings(&self.allow), deny: clone_strings(&self.deny) }
    }
}

impl WebVhostConfig {
    /// A field-by-field copy.
    pub fn duplicate(&self) -> (r: Self)
        ensures
            r@ == self@,
    {
        let mut rules: Vec<RewriteRule> = Vec::new();
        let mut i: usize = 0;
        while i < self.rewrite_rules.len()
            invariant
                i <= self.rewrite_rules@.len(),
                crate::rewrite::rules_view(rules@) == crate::rewrite::rules_view(self.rewrite_rules@).take(
                    i as int,
                ),
            decreases self.rewrite_rules@.len() - i,
        {
            let ghost before = rules@;
            rules.push(self.rewrite_rules[i].duplicate());
            assert(crate::rewrite::rules_view(rules@) =~= crate::rewrite::rules_view(before).push(
                self.rewrite_rules@[i as int]@,
            ));
            i += 1;
        }
        assert(crate::rewrite::rules_view(self.rewrite_rules@).take(i as int) =~= crate::rewrite::rules_view(
            self.rewrite_rules@,
        ));
        WebVhostConfig {
            host: self.host.clone(),
            docroot: self.docroot.clone(),
            php_enabled: self.php_enabled,
            compat_mode: self.compat_mode,
            php_mode: self.php_mode.duplicate(),
            rewrite_rules: rules,
            basic_auth: match &self.basic_auth {
                Some(b) => Some(b.duplicate()),
                None => None,
            },
            tls_cert: match &self.tls_cert {
                Some(t) => Some(t.duplicate()),
                None => None,
            },
            access_control: match &self.access_control {
                Some(a) => Some(a.duplicate()),
                None => None,
            },
        }
    }
}

impl WebVhostError {
    /// Human-readable description of the error.
    pub fn message(&self) -> (r: String)
        ensures
            r@ == (match self {
                WebVhostError::NotFound(h) => "host '"@ + h@ + "' is not registered"@,
            }),
    {
        let mut r = String::new();
        push_str(&mut r, "host '");
        match self {
            WebVhostError::NotFound(h) => {
                push_str(&mut r, h.as_str());
            },
        }
        push_str(&mut r, "' is not registered");
        r
    }
}

// ---------------------------------------------------------------------------
// Registry
// ---------------------------------------------------------------------------

/// Whether no two sites of `s` share a host.
pub open spec fn hosts_unique(s: Seq<VhostView>) -> bool {
    forall|i: int, j: int|
        0 <= i < s.len() && 0 <= j < s.len() && i != j ==> (#[trigger] s[i]).host != (
        #[trigger] s[j]).host
}

/// Whether some site of `s` answers to `h`.
pub open spec fn has_site(s: Seq<VhostView>, h: Seq<char>) -> bool {
    exists|i: int| 0 <= i < s.len() && (#[trigger] s[i]).host == h
}

/// The site of `s` that answers to `h`.
pub open spec fn site_of(s: Seq<VhostView>, h: Seq<char>) -> Option<VhostView> {
    if has_site(s, h) {
        Some(s[choose|i: int| 0 <= i < s.len() && (#[trigger] s[i]).host == h])
    } else {
        None
    }
}

/// All sites, one per host.
pub struct WebVhostRegistry {
    entries: Vec<WebVhostConfig>,
}

impl View for WebVhostRegistry {
    type V = Seq<VhostView>;

    closed spec fn view(&self) -> Seq<VhostView> {
        self.entries@.map_values(|c: WebVhostConfig| c@)
    }
}

proof fn lemma_site_at(s: Seq<VhostView>, i: int)
    requires
        hosts_unique(s),
        0 <= i < s.len(),
    ensures
        site_of(s, s[i].host) == Some(s[i]),
{
    let h = s[i].host;
    assert(has_site(s, h));
    let k = choose|k: int| 0 <= k < s.len() && (#[trigger] s[k]).host == h;
    assert(k == i);
}

impl WebVhostRegistry {
    /// Whether the table is consistent: one site per host.
    pub closed spec fn wf(&self) -> bool {
        hosts_unique(self@)
    }

    /// An empty table.
    pub fn new() -> (r: Self)
        ensures
            r.wf(),
            r@ == Seq::<VhostView>::empty(),
    {
        let r = WebVhostRegistry { entries: Vec::new() };
        assert(r@ =~= Seq::<VhostView>::empty());
        r
    }

    /// Number of sites.
    pub fn len(&self) -> (n: usize)
        ensures
            n == self@.len(),
    {
        self.entries.len()
    }

    /// Index of the site answering to `host`.
    fn index_of(&self, host: &str) -> (r: Option<usize>)
        requires
            self.wf(),
        ensures
            match r {
                Some(i) => i < self@.len() && self@[i as int].host == host@,
                None => !has_site(self@, host@),
            },
    {
        let mut i: usize = 0;
        while i < self.entries.len()
            invariant
                i <= self.entries.len(),
                forall|k: int| 0 <= k < i ==> (#[trigger] self@[k]).host != host@,
            decreases self.entries.len() - i,
        {
            if str_eq(self.entries[i].host.as_str(), host) {
                assert(self@[i as int].host == host@);
                return Some(i);
            }
            assert(self@[i as int].host != host@);
            i += 1;
        }
        None
    }

    /// Registers `config` for its host, replacing the site that held it.
    pub fn upsert(&mut self, config: WebVhostConfig)
        requires
            old(self).wf(),
        ensures
            final(self).wf(),
            site_of(final(self)@, config@.host) == Some(config@),
            forall|h: Seq<char>|
                h != config@.host ==> site_of(final(self)@, h) == site_of(old(self)@, h),
    {
        let ghost c = config@;
        let ghost mut pos: int = 0;
        match self.index_of(config.host.as_str()) {
            Some(i) => {
                self.entries[i] = config;
                proof {
                    pos = i as int;
                }
                assert(self@ =~= old(self)@.update(i as int, c));
            },
            None => {
                self.entries.push(config);
                proof {
                    pos = old(self)@.len() as int;
                }
                assert(self@ =~= old(self)@.push(c));
            },
        }
        proof {
            let s = self@;
            let o = old(self)@;
            assert(0 <= pos < s.len() && s[pos] == c);
            assert forall|a: int, b: int|
                0 <= a < s.len() && 0 <= b < s.len() && a != b implies (#[trigger] s[a]).host != (
                #[trigger] s[b]).host by {
                if a != pos && b != pos {
                    assert(s[a] == o[a] && s[b] == o[b]);
                } else if a == pos {
                    assert(s[b] == o[b]);
                    if pos < o.len() {
                        assert(o[pos].host == c.host);
                    }
                } else {
                    assert(s[a] == o[a]);
                    if pos < o.len() {
                        assert(o[pos].host == c.host);
                    }
                }
            }
            lemma_site_at(s, pos);
            assert forall|h: Seq<char>| h != c.host implies site_of(s, h) == site_of(o, h) by {
                if has_site(o, h) {
                    let j = choose|j: int| 0 <= j < o.len() && (#[trigger] o[j]).host == h;
                    lemma_site_at(o, j);
                    assert(j != pos);
                    assert(s[j] == o[j]);
                    lemma_site_at(s, j);
                } else {
                    assert(!has_site(s, h)) by {
                        if has_site(s, h) {
                            let j = choose|j: int| 0 <= j < s.len() && (#[trigger] s[j]).host == h;
                            assert(j != pos);
                            assert(j < o.len() && o[j] == s[j]);
                        }
                    }
                }
            }
        }
    }

    /// Removes the site answering to `host`.
    pub fn remove(&mut self, host: &str) -> (r: Result<(), WebVhostError>)
        requires
            old(self).wf(),
        ensures
            final(self).wf(),
            has_site(old(self)@, host@) ==> r is Ok,
            !has_site(old(self)@, host@) ==> (r matches Err(WebVhostError::NotFound(h)) && h@
                == host@) && final(self)@ == old(self)@,
            site_of(final(self)@, host@) is None,
            forall|h: Seq<char>|
                h != host@ ==> site_of(final(self)@, h) == site_of(old(self)@, h),
    {
        match self.index_of(host) {
            None => {
                assert(site_of(self@, host@) is None);
                Err(WebVhostError::NotFound(host.to_owned()))
            },
            Some(i) => {
                let _gone = self.entries.remove(i);
                proof {
                    let o = old(self)@;
                    let s = self@;
                    assert(s =~= o.remove(i as int));
                    assert forall|a: int, b: int|
                        0 <= a < s.len() && 0 <= b < s.len() && a != b implies (
                        #[trigger] s[a]).host != (#[trigger] s[b]).host by {
                        let oa = if a < i { a } else { a + 1 };
                        let ob = if b < i { b } else { b + 1 };
                        assert(s[a] == o[oa] && s[b] == o[ob]);
                    }
                    assert(!has_site(s, host@)) by {
                        if has_site(s, host@) {
                            let j = choose|j: int| 0 <= j < s.len() && (#[trigger] s[j]).host == host@;
                            let oj = if j < i { j } else { j + 1 };
                            assert(s[j] == o[oj]);
                        }
                    }
                    assert forall|h: Seq<char>| h != host@ implies site_of(s, h) == site_of(o, h) by {
                        if has_site(o, h) {
                            let j = choose|j: int| 0 <= j < o.len() && (#[trigger] o[j]).host == h;
                            lemma_site_at(o, j);
                            assert(j != i);
                            let sj = if j < i { j } else { j - 1 };
                            assert(s[sj] == o[j]);
                            lemma_site_at(s, sj);
                        } else {
                            assert(!has_site(s, h)) by {
                                if has_site(s, h) {
                                    let j = choose|j: int| 0 <= j < s.len() && (#[trigger] s[j]).host == h;
                                    let oj = if j < i { j } else { j + 1 };
                                    assert(s[j] == o[oj]);
                                }
                            }
                        }
                    }
                }
                Ok(())
            },
        }
    }

    /// The site for a `Host` header (its part before any `:`).
    pub fn resolve(&self, host_header: &str) -> (r: Option<&WebVhostConfig>)
        requires
            self.wf(),
        ensures
            match r {
                Some(c) => site_of(self@, before_char(host_header@, ':')) == Some(c@),
                None => site_of(self@, before_char(host_header@, ':')) is None,
            },
    {
        let host = before_char_exec(host_header, ':');
        match self.index_of(host.as_str()) {
            Some(i) => {
                proof {
                    lemma_site_at(self@, i as int);
                }
                Some(&self.entries[i])
            },
            None => None,
        }
    }

    /// Every site, in registration order.
    pub fn list(&self) -> (r: Vec<WebVhostConfig>)
        ensures
            r@.map_values(|c: WebVhostConfig| c@) == self@,
    {
        let mut r: Vec<WebVhostConfig> = Vec::new();
        let mut i: usize = 0;
        while i < self.entries.len()
            invariant
                i <= self.entries@.len(),
                r@.map_values(|c: WebVhostConfig| c@) == self@.take(i as int),
            decreases self.entries@.len() - i,
        {
            let ghost before = r@;
            r.push(self.entries[i].duplicate());
            assert(r@.map_values(|c: WebVhostConfig| c@) =~= before.map_values(|c: WebVhostConfig| c@).push(
                self@[i as int],
            ));
            assert(self@.take(i + 1) =~= self@.take(i as int).push(self@[i as int]));
            i += 1;
        }
        assert(self@.take(i as int) =~= self@);
        r
    }

    /// The site at position `i` of the listing.
    pub fn get(&self, i: usize) -> (r: &WebVhostConfig)
        requires
            i < self@.len(),
        ensures
            r@ == self@[i as int],
    {
        &self.entries[i]
    }

    /// Changes only the compatibility mode of the site answering to `host`.
    pub fn set_compat_mode(&mut self, host: &str, compat_mode: CompatMode) -> (r: Result<
        (),
        WebVhostError,
    >)
        requires
            old(self).wf(),
        ensures
            final(self).wf(),
            !has_site(old(self)@, host@) ==> (r matches Err(WebVhostError::NotFound(h)) && h@
                == host@) && final(self)@ == old(self)@,
            has_site(old(self)@, host@) ==> r is Ok && site_of(final(self)@, host@) == Some(
                VhostView { compat_mode, ..site_of(old(self)@, host@)->0 },
            ),
            forall|h: Seq<char>|
                h != host@ ==> site_of(final(self)@, h) == site_of(old(self)@, h),
    {
        match self.index_of(host) {
            None => Err(WebVhostError::NotFound(host.to_owned())),
            Some(i) => {
                self.entries[i].compat_mode = compat_mode;
                proof {
                    let o = old(self)@;
                    let s = self@;
                    lemma_site_at(o, i as int);
                    assert(s =~= o.update(i as int, VhostView { compat_mode, ..o[i as int] }));
                    assert(hosts_unique(s));
                    lemma_site_at(s, i as int);
                    assert forall|h: Seq<char>| h != host@ implies site_of(s, h) == site_of(o, h) by {
                        if has_site(o, h) {
                            let j = choose|j: int| 0 <= j < o.len() && (#[trigger] o[j]).host == h;
                            lemma_site_at(o, j);
                            assert(s[j] == o[j]);
                            lemma_site_at(s, j);
                        } else {
                            assert(!has_site(s, h)) by {
                                if has_site(s, h) {
                                    let j = choose|j: int| 0 <= j < s.len() && (#[trigger] s[j]).host == h;
                                    assert(o[j].host == s[j].host);
                                }
                            }
                        }
                    }
                }
                Ok(())
            },
        }
    }

    /// Loads sites in bulk, in order, each as by `upsert`. Returns how
    /// many were given.
    pub fn load(&mut self, configs: Vec<WebVhostConfig>) -> (n: usize)
        requires
            old(self).wf(),
        ensures
            final(self).wf(),
            n == configs.len(),
            forall|h: Seq<char>|
                #[trigger] site_of(final(self)@, h) == site_after_load(
                    old(self)@,
                    configs@.map_values(|c: WebVhostConfig| c@),
                    h,
                ),
    {
        let n = configs.len();
        let mut rest = configs;
        let ghost all = rest@.map_values(|c: WebVhostConfig| c@);
        let mut k: usize = 0;
        while rest.len() > 0
            invariant
                self.wf(),
                k + rest.len() == n,
                n == all.len(),
                rest@.map_values(|c: WebVhostConfig| c@) == all.subrange(k as int, n as int),
                forall|h: Seq<char>|
                    #[trigger] site_of(self@, h) == site_after_load(
                        old(self)@,
                        all.take(k as int),
                        h,
                    ),
            decreases rest.len(),
        {
            let ghost rv = rest@.map_values(|c: WebVhostConfig| c@);
            let ghost old_rest = rest@;
            let c = rest.remove(0);
            proof {
                assert(rv[0] == c@);
                assert(all[k as int] == c@);
                assert(all.take(k + 1).drop_last() =~= all.take(k as int));
                assert(all.take(k + 1).last() == c@);
            }
            self.upsert(c);
            proof {
                assert(rest@ =~= old_rest.subrange(1, old_rest.len() as int));
                assert(rest@.map_values(|c: WebVhostConfig| c@) =~= rv.subrange(1, rv.len() as int));
                assert(rest@.map_values(|c: WebVhostConfig| c@) =~= all.subrange(k + 1, n as int));
            }
            k += 1;
        }
        assert(all.take(k as int) =~= all);
        n
    }
}

/// Which site answers to `h` after loading `cs` into a table whose sites
/// were `before`: the last of `cs` for `h`, else the one `before` had.
pub open spec fn site_after_load(before: Seq<VhostView>, cs: Seq<VhostView>, h: Seq<char>) -> Option<
    VhostView,
>
    decreases cs.len(),
{
    if cs.len() == 0 {
        site_of(before, h)
    } else if cs.last().host == h {
        Some(cs.last())
    } else {
        site_after_load(before, cs.drop_last(), h)
    }
}

proof fn lemma_find_char_absent_then(h: Seq<char>, c: char, rest: Seq<char>)
    requires
        find_char(h, c) is None,
    ensures
        find_char(h + seq![c] + rest, c) == Some(h.len() as int),
    decreases h.len(),
{
    let s = h + seq![c] + rest;
    if h.len() == 0 {
        assert(s[0] == c);
    } else {
        lemma_find_char_absent_then(h.drop_first(), c, rest);
        assert(s.drop_first() =~= h.drop_first() + seq![c] + rest);
        assert(s[0] == h[0]);
    }
}

/// A `Host` header with a port resolves as the bare host: for a host name
/// without `:`, the part of `host:port` before the first `:` is the host.
pub proof fn law_port_is_ignored(host: Seq<char>, port: Seq<char>)
    requires
        find_char(host, ':') is None,
    ensures
        before_char(host + seq![':'] + port, ':') == host,
        before_char(host, ':') == host,
{
    lemma_find_char_absent_then(host, ':', port);
    assert((host + seq![':'] + port).subrange(0, host.len() as int) =~= host);
}

} // verus!
