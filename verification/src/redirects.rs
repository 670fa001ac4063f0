//! Host-based permanent redirects (`www.example.com` to `example.com`).
//!
//! A rule maps a host to a base URL; a request for that host is answered
//! with a redirect to the base URL followed by the request's path and query.

use vstd::prelude::*;
use crate::text::{
    before_char, before_char_exec, chars_of, push_char, push_str, str_eq, substring,
    trim_end_char, trim_end_char_range,
};

verus! {

/// One redirect rule.
#[derive(Debug, Clone, PartialEq, Eq)]
pub struct RedirectRule {
    /// Host the requests come in for (`"www.audiocafe.tokyo"`).
    pub host: String,
    /// Base URL, scheme included (`"https://audiocafe.tokyo"`); a trailing
    /// `/` is allowed.
    pub redirect_to: String,
}

/// Model of a rule.
pub struct RedirectView {
    pub host: Seq<char>,
    pub redirect_to: Seq<char>,
}

impl View for RedirectRule {
    type V = RedirectView;

    open spec fn view(&self) -> RedirectView {
        RedirectView { host: self.host@, redirect_to: self.redirect_to@ }
    }
}

impl RedirectRule {
    /// A field-by-field copy.
    pub fn duplicate(&self) -> (r: Self)
        ensures
            r@ == self@,
    {
        RedirectRule { host: self.host.clone(), redirect_to: self.redirect_to.clone() }
    }
}

/// Errors of the redirect registry.
#[derive(Debug)]
pub enum RedirectError {
    /// No rule is registered for this host.
    NotFound(String),
}

impl RedirectError {
    /// Human-readable description of the error.
    pub fn message(&self) -> (r: String)
        ensures
            r@ == (match self {
                RedirectError::NotFound(h) => "host '"@ + h@ + "' is not registered"@,
            }),
    {
        let mut r = String::new();
        push_str(&mut r, "host '");
        match self {
            RedirectError::NotFound(h) => {
                push_str(&mut r, h.as_str());
            },
        }
        push_str(&mut r, "' is not registered");
        r
    }
}

/// Status of a host redirect (301 Moved Permanently).
pub const REDIRECT_STATUS: u16 = 301;

/// The `Location` of a redirect: the base URL without trailing `/`s,
/// then the path and query, given a leading `/` when it has none.
pub open spec fn redirect_location_spec(redirect_to: Seq<char>, path_and_query: Seq<char>) -> Seq<
    char,
> {
    let base = trim_end_char(redirect_to, '/');
    if path_and_query.len() > 0 && path_and_query[0] == '/' {
        base + path_and_query
    } else {
        base + seq!['/'] + path_and_query
    }
}

/// The `Location` header of the permanent redirect answering a request
/// for `path_and_query` under `rule`.
pub fn redirect_location(rule: &RedirectRule, path_and_query: &str) -> (r: String)
    ensures
        r@ == redirect_location_spec(rule.redirect_to@, path_and_query@),
{
    let v = chars_of(rule.redirect_to.as_str());
    let end = trim_end_char_range(&v, 0, v.len(), '/');
    proof {
        assert(v@.subrange(0, v@.len() as int) =~= v@);
    }
    let mut r = substring(&v, 0, end);
    let p = chars_of(path_and_query);
    if !(p.len() > 0 && p[0] == '/') {
        push_char(&mut r, '/');
    }
    push_str(&mut r, path_and_query);
    r
}

/// Whether no two rules of `s` share a host.
pub open spec fn rule_hosts_unique(s: Seq<RedirectView>) -> bool {
    forall|i: int, j: int|
        0 <= i < s.len() && 0 <= j < s.len() && i != j ==> (#[trigger] s[i]).host != (
        #[trigger] s[j]).host
}

/// Whether some rule of `s` is for `h`.
pub open spec fn has_rule(s: Seq<RedirectView>, h: Seq<char>) -> bool {
    exists|i: int| 0 <= i < s.len() && (#[trigger] s[i]).host == h
}

/// The rule of `s` for `h`.
pub open spec fn rule_of(s: Seq<RedirectView>, h: Seq<char>) -> Option<RedirectView> {
    if has_rule(s, h) {
        Some(s[choose|i: int| 0 <= i < s.len() && (#[trigger] s[i]).host == h])
    } else {
        None
    }
}

/// Which rule is for `h` after loading `cs` into a table whose rules were
/// `before`: the last of `cs` for `h`, else the one `before` had.
pub open spec fn rule_after_load(before: Seq<RedirectView>, cs: Seq<RedirectView>, h: Seq<char>) -> Option<
    RedirectView,
>
    decreases cs.len(),
{
    if cs.len() == 0 {
        rule_of(before, h)
    } else if cs.last().host == h {
        Some(cs.last())
    } else {
        rule_after_load(before, cs.drop_last(), h)
    }
}

proof fn lemma_rule_at(s: Seq<RedirectView>, i: int)
    requires
        rule_hosts_unique(s),
        0 <= i < s.len(),
    ensures
        rule_of(s, s[i].host) == Some(s[i]),
{
    let h = s[i].host;
    assert(has_rule(s, h));
    let k = choose|k: int| 0 <= k < s.len() && (#[trigger] s[k]).host == h;
    assert(k == i);
}

/// All redirect rules, one per host.
pub struct RedirectRegistry {
    rules: Vec<RedirectRule>,
}

impl View for RedirectRegistry {
    type V = Seq<RedirectView>;

    closed spec fn view(&self) -> Seq<RedirectView> {
        self.rules@.map_values(|r: RedirectRule| r@)
    }
}

impl RedirectRegistry {
    /// Whether the table is consistent: one rule per host.
    pub closed spec fn wf(&self) -> bool {
        rule_hosts_unique(self@)
    }

    /// An empty table.
    pub fn new() -> (r: Self)
        ensures
            r.wf(),
            r@ == Seq::<RedirectView>::empty(),
    {
        let r = RedirectRegistry { rules: Vec::new() };
        assert(r@ =~= Seq::<RedirectView>::empty());
        r
    }

    /// Number of rules.
    pub fn len(&self) -> (n: usize)
        ensures
            n == self@.len(),
    {
        self.rules.len()
    }

    /// The rule at position `i` of the listing.
    pub fn get(&self, i: usize) -> (r: &RedirectRule)
        requires
            i < self@.len(),
        ensures
            r@ == self@[i as int],
    {
        &self.rules[i]
    }

    /// Every rule, in registration order.
    pub fn list(&self) -> (r: Vec<RedirectRule>)
        ensures
            r@.map_values(|x: RedirectRule| x@) == self@,
    {
        let mut r: Vec<RedirectRule> = Vec::new();
        let mut i: usize = 0;
        while i < self.rules.len()
            invariant
                i <= self.rules@.len(),
                r@.map_values(|x: RedirectRule| x@) == self@.take(i as int),
            decreases self.rules@.len() - i,
        {
            let ghost before = r@;
            r.push(self.rules[i].duplicate());
            assert(r@.map_values(|x: RedirectRule| x@) =~= before.map_values(|x: RedirectRule| x@).push(
                self@[i as int],
            ));
            assert(self@.take(i + 1) =~= self@.take(i as int).push(self@[i as int]));
            i += 1;
        }
        assert(self@.take(i as int) =~= self@);
        r
    }

    fn index_of(&self, host: &str) -> (r: Option<usize>)
        ensures
            match r {
                Some(i) => i < self@.len() && self@[i as int].host == host@,
                None => !has_rule(self@, host@),
            },
    {
        let mut i: usize = 0;
        while i < self.rules.len()
            invariant
                i <= self.rules.len(),
                forall|k: int| 0 <= k < i ==> (#[trigger] self@[k]).host != host@,
            decreases self.rules.len() - i,
        {
            if str_eq(self.rules[i].host.as_str(), host) {
                assert(self@[i as int].host == host@);
                return Some(i);
            }
            assert(self@[i as int].host != host@);
            i += 1;
        }
        None
    }

    /// Adds `rule`, replacing the rule of its host.
    pub fn upsert(&mut self, rule: RedirectRule)
        requires
            old(self).wf(),
        ensures
            final(self).wf(),
            rule_of(final(self)@, rule@.host) == Some(rule@),
            forall|h: Seq<char>|
                h != rule@.host ==> rule_of(final(self)@, h) == rule_of(old(self)@, h),
    {
        let ghost c = rule@;
        let ghost mut pos: int = 0;
        match self.index_of(rule.host.as_str()) {
            Some(i) => {
                self.rules[i] = rule;
                proof {
                    pos = i as int;
                }
                assert(self@ =~= old(self)@.update(i as int, c));
            },
            None => {
                self.rules.push(rule);
                proof {
                    pos = old(self)@.len() as int;
                }
                assert(self@ =~= old(self)@.push(c));
            },
        }
        proof {
            let s = self@;
            let o = old(self)@;
            assert(0 <= pos < s.len() && s[pos] == c);
            assert forall|a: int, b: int|
                0 <= a < s.len() && 0 <= b < s.len() && a != b implies (#[trigger] s[a]).host != (
                #[trigger] s[b]).host by {
                if a != pos && b != pos {
                    assert(s[a] == o[a] && s[b] == o[b]);
                } else if a == pos {
                    assert(s[b] == o[b]);
                    if pos < o.len() {
                        assert(o[pos].host == c.host);
                    }
                } else {
                    assert(s[a] == o[a]);
                    if pos < o.len() {
                        assert(o[pos].host == c.host);
                    }
                }
            }
            lemma_rule_at(s, pos);
            assert forall|h: Seq<char>| h != c.host implies rule_of(s, h) == rule_of(o, h) by {
                if has_rule(o, h) {
                    let j = choose|j: int| 0 <= j < o.len() && (#[trigger] o[j]).host == h;
                    lemma_rule_at(o, j);
                    assert(j != pos);
                    assert(s[j] == o[j]);
                    lemma_rule_at(s, j);
                } else {
                    assert(!has_rule(s, h)) by {
                        if has_rule(s, h) {
                            let j = choose|j: int| 0 <= j < s.len() && (#[trigger] s[j]).host == h;
                            assert(j != pos);
                            assert(j < o.len() && o[j] == s[j]);
                        }
                    }
                }
            }
        }
    }

    /// Removes the rule of `host`.
    pub fn remove(&mut self, host: &str) -> (r: Result<(), RedirectError>)
        requires
            old(self).wf(),
        ensures
            final(self).wf(),
            has_rule(old(self)@, host@) ==> r is Ok,
            !has_rule(old(self)@, host@) ==> (r matches Err(RedirectError::NotFound(h)) && h@
                == host@) && final(self)@ == old(self)@,
            rule_of(final(self)@, host@) is None,
            forall|h: Seq<char>|
                h != host@ ==> rule_of(final(self)@, h) == rule_of(old(self)@, h),
    {
        match self.index_of(host) {
            None => {
                assert(rule_of(self@, host@) is None);
                Err(RedirectError::NotFound(host.to_owned()))
            },
            Some(i) => {
                let _gone = self.rules.remove(i);
                proof {
                    let o = old(self)@;
                    let s = self@;
                    assert(s =~= o.remove(i as int));
                    assert forall|a: int, b: int|
                        0 <= a < s.len() && 0 <= b < s.len() && a != b implies (
                        #[trigger] s[a]).host != (#[trigger] s[b]).host by {
                        let oa = if a < i { a } else { a + 1 };
                        let ob = if b < i { b } else { b + 1 };
                        assert(s[a] == o[oa] && s[b] == o[ob]);
                    }
                    assert(!has_rule(s, host@)) by {
                        if has_rule(s, host@) {
                            let j = choose|j: int| 0 <= j < s.len() && (#[trigger] s[j]).host == host@;
                            let oj = if j < i { j } else { j + 1 };
                            assert(s[j] == o[oj]);
                        }
                    }
                    assert forall|h: Seq<char>| h != host@ implies rule_of(s, h) == rule_of(o, h) by {
                        if has_rule(o, h) {
                            let j = choose|j: int| 0 <= j < o.len() && (#[trigger] o[j]).host == h;
                            lemma_rule_at(o, j);
                            assert(j != i);
                            let sj = if j < i { j } else { j - 1 };
                            assert(s[sj] == o[j]);
                            lemma_rule_at(s, sj);
                        } else {
                            assert(!has_rule(s, h)) by {
                                if has_rule(s, h) {
                                    let j = choose|j: int| 0 <= j < s.len() && (#[trigger] s[j]).host == h;
                                    let oj = if j < i { j } else { j + 1 };
                                    assert(s[j] == o[oj]);
                                }
                            }
                        }
                    }
                }
                Ok(())
            },
        }
    }

    /// The rule for a `Host` header (its part before any `:`).
    pub fn resolve(&self, host_header: &str) -> (r: Option<&RedirectRule>)
        requires
            self.wf(),
        ensures
            match r {
                Some(c) => rule_of(self@, before_char(host_header@, ':')) == Some(c@),
                None => rule_of(self@, before_char(host_header@, ':')) is None,
            },
    {
        let host = before_char_exec(host_header, ':');
        match self.index_of(host.as_str()) {
            Some(i) => {
                proof {
                    lemma_rule_at(self@, i as int);
                }
                Some(&self.rules[i])
            },
            None => None,
        }
    }

    /// Loads rules in bulk, in order, each as by `upsert`. Returns how many
    /// were given.
    pub fn load(&mut self, rules: Vec<RedirectRule>) -> (n: usize)
        requires
            old(self).wf(),
        ensures
            final(self).wf(),
            n == rules.len(),
            forall|h: Seq<char>|
                #[trigger] rule_of(final(self)@, h) == rule_after_load(
                    old(self)@,
                    rules@.map_values(|r: RedirectRule| r@),
                    h,
                ),
    {
        let n = rules.len();
        let mut rest = rules;
        let ghost all = rest@.map_values(|r: RedirectRule| r@);
        let mut k: usize = 0;
        while rest.len() > 0
            invariant
                self.wf(),
                k + rest.len() == n,
                n == all.len(),
                rest@.map_values(|r: RedirectRule| r@) == all.subrange(k as int, n as int),
                forall|h: Seq<char>|
                    #[trigger] rule_of(self@, h) == rule_after_load(old(self)@, all.take(k as int), h),
            decreases rest.len(),
        {
            let ghost rv = rest@.map_values(|r: RedirectRule| r@);
            let ghost old_rest = rest@;
            let c = rest.remove(0);
            proof {
                assert(rv[0] == c@);
                assert(all[k as int] == c@);
                assert(all.take(k + 1).drop_last() =~= all.take(k as int));
                assert(all.take(k + 1).last() == c@);
            }
            self.upsert(c);
            proof {
                assert(rest@ =~= old_rest.subrange(1, old_rest.len() as int));
                assert(rest@.map_values(|r: RedirectRule| r@) =~= rv.subrange(1, rv.len() as int));
                assert(rest@.map_values(|r: RedirectRule| r@) =~= all.subrange(k + 1, n as int));
            }
            k += 1;
        }
        assert(all.take(k as int) =~= all);
        n
    }
}


/// The `Location` of a redirect keeps the request: it is the target URL
/// without its trailing `/`s, followed by the request's path and query
/// (a `/` put in between when the path and query do not start with one),
/// whether or not the target URL ends with `/`.
pub proof fn law_redirect_keeps_path_and_query(redirect_to: Seq<char>, path_and_query: Seq<char>)
    ensures
        ({
            let loc = redirect_location_spec(redirect_to, path_and_query);
            let sep: Seq<char> = if path_and_query.len() > 0 && path_and_query[0] == '/' {
                seq![]
            } else {
                seq!['/']
            };
            let n = loc.len() - sep.len() - path_and_query.len();
            &&& 0 <= n <= redirect_to.len()
            &&& loc == redirect_to.take(n) + sep + path_and_query
            &&& forall|k: int| n <= k < redirect_to.len() ==> redirect_to[k] == '/'
            &&& n == 0 || redirect_to[n - 1] != '/'
        }),
{
    crate::text::lemma_trim_end_char_shape(redirect_to, '/');
    let t = trim_end_char(redirect_to, '/');
    if t.len() > 0 {
        assert(t.last() == redirect_to.take(t.len() as int)[t.len() - 1]);
    }
}
} // verus!

