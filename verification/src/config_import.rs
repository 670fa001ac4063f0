//! Reading a [`WebVhostConfig`] out of an Apache `<VirtualHost>` block or an
//! nginx `server { ... }` block.
//!
//! The parsers are tolerant: they read the directives they know, line by
//! line, and ignore every other line. Apache: `ServerName`,
//! `DocumentRoot`, `SetHandler "proxy:fcgi://..."`, `RewriteCond` +
//! `RewriteRule`, `AuthType`/`AuthName`/`AuthUserFile` (Basic only; Digest
//! is skipped), `SSLCertificateFile`/`SSLCertificateKeyFile` and
//! `Allow from`/`Deny from`. nginx: `server_name`, `root`, `fastcgi_pass`,
//! `auth_basic`/`auth_basic_user_file`, `ssl_certificate`/
//! `ssl_certificate_key`, `allow`/`deny`, and `if (...) { return|rewrite }`
//! blocks. Directive names are matched case-sensitively in their usual
//! spelling.
//!
//! Each parser is specified as a fold of a per-line step over the lines of
//! the text, followed by [`build_spec`].

use vstd::prelude::*;
use crate::rewrite::{CondView, RewriteCondition, RewriteRule, RuleView};
use crate::text::{
    after_first_token, after_first_token_range, chars_of, ends_with, eq_ignore_ascii_case,
    eq_ignore_ascii_case_range, eq_range, find_char, find_char_range, find_ws, find_ws_range,
    first_token, first_token_or_all, first_token_or_all_range, first_token_range, is_whitespace,
    is_ws, lemma_find_char_bounds, line_ranges, lines, owned, rfind_char, rfind_char_range,
    second_token, starts_with, starts_with_range, str_eq, strip_prefix, substring, third_token,
    to_lowercase, trim, trim_end_char, trim_end_char_range, trim_range, trim_start_char,
    trim_start_char_range, unicode_lowercase,
};
use crate::web_vhost::{
    AccessControlConfig, AccessControlView, BasicAuthConfig, BasicAuthView, CompatMode,
    PhpMode, PhpModeView, TlsCertConfig, TlsCertView, VhostView, WebVhostConfig,
};

verus! {

/// Why a configuration could not be imported.
#[derive(Debug)]
pub enum ImportError {
    /// No `ServerName`/`server_name` directive.
    MissingHost,
    /// No `DocumentRoot`/`root` directive.
    MissingDocroot,
}

impl ImportError {
    /// Human-readable description of the error.
    pub fn message(&self) -> (r: String)
        ensures
            r@ == match self {
                ImportError::MissingHost => "no ServerName/server_name directive found in the provided config"@,
                ImportError::MissingDocroot => "no DocumentRoot/root directive found in the provided config"@,
            },
    {
        let mut r = String::new();
        match self {
            ImportError::MissingHost => crate::text::push_str(&mut r, "no ServerName/server_name directive found in the provided config"),
            ImportError::MissingDocroot => crate::text::push_str(&mut r, "no DocumentRoot/root directive found in the provided config"),
        }
        r
    }
}

// ---------------------------------------------------------------------------
// Single-directive parsing: specification
// ---------------------------------------------------------------------------

/// If `line` starts with the directive name `d` followed by a whitespace
/// character, the rest of the line, trimmed.
pub open spec fn strip_directive(line: Seq<char>, d: Seq<char>) -> Option<Seq<char>> {
    match strip_prefix(line, d) {
        Some(r) => if r.len() > 0 && is_ws(r[0]) {
            Some(trim(r.drop_first()))
        } else {
            None
        },
        None => None,
    }
}

/// `s` trimmed, without one pair of surrounding `"` or `'`.
pub open spec fn unquote(s: Seq<char>) -> Seq<char> {
    let t = trim(s);
    if t.len() >= 2 && t[0] == '"' && t.last() == '"' {
        t.subrange(1, t.len() - 1)
    } else if t.len() >= 2 && t[0] == '\'' && t.last() == '\'' {
        t.subrange(1, t.len() - 1)
    } else {
        t
    }
}

/// `RewriteCond %{VAR} pattern [flags]` (directive name already removed).
pub open spec fn parse_rewrite_cond_spec(rest: Seq<char>) -> Option<CondView> {
    match (first_token(rest), second_token(rest)) {
        (Some(var_tok), Some(pat_tok)) => match strip_prefix(var_tok, "%{"@) {
            Some(x) => if x.len() > 0 && x.last() == '}' {
                Some(CondView { variable: x.drop_last(), pattern: pat_tok })
            } else {
                None
            },
            None => None,
        },
        _ => None,
    }
}

/// The text between the first `[` and the last `]` of `s`, or nothing.
pub open spec fn bracket_flags(s: Seq<char>) -> Seq<char> {
    match (find_char(s, '['), rfind_char(s, ']')) {
        (Some(st), Some(en)) => if en > st {
            s.subrange(st + 1, en)
        } else {
            seq![]
        },
        _ => seq![],
    }
}

/// The substitution and the flag text of a `RewriteRule`, given what
/// follows the pattern.
pub open spec fn rule_subst_and_flags(after: Seq<char>) -> (Seq<char>, Seq<char>) {
    match find_ws(after) {
        Some(i) => (after.take(i), bracket_flags(trim(after.skip(i + 1)))),
        None => match (find_char(after, '['), rfind_char(after, ']')) {
            (Some(st), Some(en)) => (
                trim(after.take(st)),
                if en > st {
                    after.subrange(st + 1, en)
                } else {
                    seq![]
                },
            ),
            _ => (after, seq![]),
        },
    }
}

/// Whether one flag is `R` or `R=<code>`.
pub open spec fn flag_is_redirect(f: Seq<char>) -> bool {
    trim(f) == "R"@ || starts_with(trim(f), "R="@)
}

/// Whether one of the comma-separated flags is a redirect flag.
pub open spec fn has_redirect_flag(flags: Seq<char>) -> bool
    decreases flags.len(),
{
    match find_char(flags, ',') {
        Some(i) => {
            proof {
                lemma_find_char_bounds(flags, ',');
            }
            flag_is_redirect(flags.take(i)) || has_redirect_flag(flags.skip(i + 1))
        },
        None => flag_is_redirect(flags),
    }
}

/// `RewriteRule pattern substitution [flags]` (directive name already
/// removed); the conditions are left empty.
pub open spec fn parse_rewrite_rule_spec(rest: Seq<char>) -> Option<RuleView> {
    match find_ws(rest) {
        Some(i) => {
            let (sub, flags) = rule_subst_and_flags(rest.skip(i + 1));
            Some(
                RuleView {
                    pattern: rest.take(i),
                    substitution: unquote(sub),
                    redirect: has_redirect_flag(flags),
                    conditions: seq![],
                },
            )
        },
        None => None,
    }
}

/// `Allow from <ip>` / `Deny from <ip>`: the address, or nothing for `all`.
pub open spec fn parse_allow_deny_spec(rest: Seq<char>) -> Option<Seq<char>> {
    let r = trim(rest);
    let r2 = match strip_prefix(r, "from"@) {
        Some(x) => trim(x),
        None => r,
    };
    if r2.len() == 0 || eq_ignore_ascii_case(r2, "all"@) {
        None
    } else {
        Some(first_token_or_all(r2))
    }
}

/// The rewrite variable an nginx variable name stands for.
pub open spec fn nginx_variable(name: Seq<char>) -> Option<Seq<char>> {
    if name == "$http_host"@ {
        Some("HTTP_HOST"@)
    } else if name == "$request_method"@ {
        Some("REQUEST_METHOD"@)
    } else if name == "$query_string"@ || name == "$args"@ {
        Some("QUERY_STRING"@)
    } else {
        None
    }
}

/// `if ($var ~ pattern) {` or `if ($var ~* pattern) {`.
pub open spec fn parse_nginx_if_spec(line: Seq<char>) -> Option<CondView> {
    match (find_char(line, '('), rfind_char(line, ')')) {
        (Some(st), Some(en)) => if en <= st {
            None
        } else {
            let inner = trim(line.subrange(st + 1, en));
            match find_char(inner, '~') {
                Some(t) => {
                    let var_part = trim(inner.take(t));
                    let pat = trim(trim_start_char(trim(inner.skip(t + 1)), '*'));
                    match nginx_variable(var_part) {
                        Some(name) => Some(CondView { variable: name, pattern: unquote(pat) }),
                        None => None,
                    }
                },
                None => None,
            }
        },
        _ => None,
    }
}

/// A `return <code> <target>;` or `rewrite <pattern> <target> [flag];`
/// line inside an nginx `if` block.
pub open spec fn parse_nginx_return_spec(raw: Seq<char>) -> Option<RuleView> {
    let line = trim(trim_end_char(trim(raw), ';'));
    if let Some(rest) = strip_directive(line, "return"@) {
        match (first_token(rest), second_token(rest)) {
            (Some(_), Some(target)) => Some(
                RuleView {
                    pattern: "^.*$"@,
                    substitution: target,
                    redirect: true,
                    conditions: seq![],
                },
            ),
            _ => None,
        }
    } else if let Some(rest) = strip_directive(line, "rewrite"@) {
        match (first_token(rest), second_token(rest)) {
            (Some(p), Some(sub)) => {
                let flag = match third_token(rest) {
                    Some(f) => f,
                    None => seq![],
                };
                Some(
                    RuleView {
                        pattern: p,
                        substitution: sub,
                        redirect: flag == "redirect"@ || flag == "permanent"@,
                        conditions: seq![],
                    },
                )
            },
            _ => None,
        }
    } else {
        None
    }
}

// ---------------------------------------------------------------------------
// Single-directive parsing: implementation
// ---------------------------------------------------------------------------

/// Range form of [`strip_directive`].
fn strip_directive_range(v: &Vec<char>, lo: usize, hi: usize, d: &str) -> (r: Option<(usize, usize)>)
    requires
        lo <= hi <= v.len(),
    ensures
        match r {
            Some((a, b)) => lo <= a <= b <= hi && strip_directive(
                v@.subrange(lo as int, hi as int),
                d@,
            ) == Some(v@.subrange(a as int, b as int)),
            None => strip_directive(v@.subrange(lo as int, hi as int), d@) is None,
        },
{
    let dv = chars_of(d);
    let ghost s = v@.subrange(lo as int, hi as int);
    if !starts_with_range(v, lo, hi, &dv) {
        return None;
    }
    let p = lo + dv.len();
    proof {
        assert(s.skip(dv@.len() as int) =~= v@.subrange(p as int, hi as int));
    }
    if p < hi && is_whitespace(v[p]) {
        let r = trim_range(v, p + 1, hi);
        proof {
            assert(v@.subrange(p as int, hi as int).drop_first() =~= v@.subrange(p + 1, hi as int));
        }
        Some(r)
    } else {
        None
    }
}

/// Range form of [`unquote`].
fn unquote_range(v: &Vec<char>, lo: usize, hi: usize) -> (r: (usize, usize))
    requires
        lo <= hi <= v.len(),
    ensures
        lo <= r.0 <= r.1 <= hi,
        v@.subrange(r.0 as int, r.1 as int) == unquote(v@.subrange(lo as int, hi as int)),
{
    let (a, b) = trim_range(v, lo, hi);
    let ghost t = v@.subrange(a as int, b as int);
    if b - a >= 2 && v[a] == '"' && v[b - 1] == '"' {
        assert(t.subrange(1, t.len() - 1) =~= v@.subrange(a + 1, b - 1));
        (a + 1, b - 1)
    } else if b - a >= 2 && v[a] == '\'' && v[b - 1] == '\'' {
        assert(t.subrange(1, t.len() - 1) =~= v@.subrange(a + 1, b - 1));
        (a + 1, b - 1)
    } else {
        (a, b)
    }
}

/// Parses what follows `RewriteCond`.
fn parse_apache_rewrite_cond(v: &Vec<char>, lo: usize, hi: usize) -> (r: Option<RewriteCondition>)
    requires
        lo <= hi <= v.len(),
    ensures
        match r {
            Some(c) => parse_rewrite_cond_spec(v@.subrange(lo as int, hi as int)) == Some(c@),
            None => parse_rewrite_cond_spec(v@.subrange(lo as int, hi as int)) is None,
        },
{
    let (a1, b1) = match first_token_range(v, lo, hi) {
        Some(t) => t,
        None => return None,
    };
    let after = after_first_token_range(v, lo, hi);
    let (a2, b2) = match first_token_range(v, after, hi) {
        Some(t) => t,
        None => return None,
    };
    let open = chars_of("%{");
    if !starts_with_range(v, a1, b1, &open) {
        return None;
    }
    let x = a1 + open.len();
    proof {
        assert(v@.subrange(a1 as int, b1 as int).skip(open@.len() as int) =~= v@.subrange(
            x as int,
            b1 as int,
        ));
    }
    if x < b1 && v[b1 - 1] == '}' {
        let variable = substring(v, x, b1 - 1);
        let pattern = substring(v, a2, b2);
        proof {
            assert(v@.subrange(x as int, b1 as int).drop_last() =~= v@.subrange(
                x as int,
                b1 - 1,
            ));
        }
        Some(RewriteCondition { variable, pattern })
    } else {
        None
    }
}

/// Range form of [`bracket_flags`].
fn bracket_flags_range(v: &Vec<char>, lo: usize, hi: usize) -> (r: (usize, usize))
    requires
        lo <= hi <= v.len(),
    ensures
        lo <= r.0 <= r.1 <= hi,
        v@.subrange(r.0 as int, r.1 as int) == bracket_flags(v@.subrange(lo as int, hi as int)),
{
    let ghost s = v@.subrange(lo as int, hi as int);
    match (find_char_range(v, lo, hi, '['), rfind_char_range(v, lo, hi, ']')) {
        (Some(st), Some(en)) => {
            if en > st {
                assert(s.subrange(st - lo + 1, en - lo) =~= v@.subrange(st + 1, en as int));
                (st + 1, en)
            } else {
                assert(v@.subrange(lo as int, lo as int) =~= Seq::<char>::empty());
                (lo, lo)
            }
        },
        _ => {
            assert(v@.subrange(lo as int, lo as int) =~= Seq::<char>::empty());
            (lo, lo)
        },
    }
}

/// Whether `[lo, hi)` is one redirect flag.
fn flag_is_redirect_range(v: &Vec<char>, lo: usize, hi: usize) -> (b: bool)
    requires
        lo <= hi <= v.len(),
    ensures
        b == flag_is_redirect(v@.subrange(lo as int, hi as int)),
{
    let (a, b) = trim_range(v, lo, hi);
    let r = chars_of("R");
    let r_eq = chars_of("R=");
    eq_range(v, a, b, &r) || starts_with_range(v, a, b, &r_eq)
}

/// Range form of [`has_redirect_flag`].
fn has_redirect_flag_range(v: &Vec<char>, lo: usize, hi: usize) -> (b: bool)
    requires
        lo <= hi <= v.len(),
    ensures
        b == has_redirect_flag(v@.subrange(lo as int, hi as int)),
{
    let mut pos = lo;
    while pos <= hi
        invariant
            lo <= pos <= hi <= v.len(),
            has_redirect_flag(v@.subrange(lo as int, hi as int)) == has_redirect_flag(
                v@.subrange(pos as int, hi as int),
            ),
        decreases hi - pos,
    {
        let ghost s = v@.subrange(pos as int, hi as int);
        match find_char_range(v, pos, hi, ',') {
            Some(i) => {
                proof {
                    assert(s.take(i - pos) =~= v@.subrange(pos as int, i as int));
                    assert(s.skip(i - pos + 1) =~= v@.subrange(i + 1, hi as int));
                }
                if flag_is_redirect_range(v, pos, i) {
                    return true;
                }
                pos = i + 1;
            },
            None => {
                return flag_is_redirect_range(v, pos, hi);
            },
        }
    }
    false
}

/// Parses what follows `RewriteRule`.
fn parse_apache_rewrite_rule(v: &Vec<char>, lo: usize, hi: usize) -> (r: Option<RewriteRule>)
    requires
        lo <= hi <= v.len(),
    ensures
        match r {
            Some(rule) => parse_rewrite_rule_spec(v@.subrange(lo as int, hi as int)) == Some(
                rule@,
            ),
            None => parse_rewrite_rule_spec(v@.subrange(lo as int, hi as int)) is None,
        },
{
    let ghost rest = v@.subrange(lo as int, hi as int);
    let i1 = match find_ws_range(v, lo, hi) {
        Some(i) => i,
        None => return None,
    };
    let after_lo = i1 + 1;
    let ghost after = v@.subrange(after_lo as int, hi as int);
    proof {
        assert(rest.take(i1 - lo) =~= v@.subrange(lo as int, i1 as int));
        assert(rest.skip(i1 - lo + 1) =~= after);
    }
    let (sub_lo, sub_hi, flags_lo, flags_hi) = match find_ws_range(v, after_lo, hi) {
        Some(i2) => {
            let (ta, tb) = trim_range(v, i2 + 1, hi);
            let (fa, fb) = bracket_flags_range(v, ta, tb);
            proof {
                assert(after.take(i2 - after_lo) =~= v@.subrange(after_lo as int, i2 as int));
                assert(after.skip(i2 - after_lo + 1) =~= v@.subrange(i2 + 1, hi as int));
            }
            (after_lo, i2, fa, fb)
        },
        None => {
            match (find_char_range(v, after_lo, hi, '['), rfind_char_range(v, after_lo, hi, ']')) {
                (Some(st), Some(en)) => {
                    let (sa, sb) = trim_range(v, after_lo, st);
                    proof {
                        assert(after.take(st - after_lo) =~= v@.subrange(after_lo as int, st as int));
                    }
                    if en > st {
                        proof {
                            assert(after.subrange(st - after_lo + 1, en - after_lo) =~= v@.subrange(
                                st + 1,
                                en as int,
                            ));
                        }
                        (sa, sb, st + 1, en)
                    } else {
                        proof {
                            assert(v@.subrange(st as int, st as int) =~= Seq::<char>::empty());
                        }
                        (sa, sb, st, st)
                    }
                },
                _ => {
                    proof {
                        assert(v@.subrange(hi as int, hi as int) =~= Seq::<char>::empty());
                    }
                    (after_lo, hi, hi, hi)
                },
            }
        },
    };
    let (ua, ub) = unquote_range(v, sub_lo, sub_hi);
    let redirect = has_redirect_flag_range(v, flags_lo, flags_hi);
    let pattern = substring(v, lo, i1);
    let substitution = substring(v, ua, ub);
    let rule = RewriteRule { pattern, substitution, redirect, conditions: Vec::new() };
    proof {
        assert(rule@.conditions =~= Seq::<CondView>::empty());
    }
    Some(rule)
}

/// Parses what follows `Allow`/`Deny`.
fn parse_apache_allow_deny(v: &Vec<char>, lo: usize, hi: usize) -> (r: Option<String>)
    requires
        lo <= hi <= v.len(),
    ensures
        match r {
            Some(s) => parse_allow_deny_spec(v@.subrange(lo as int, hi as int)) == Some(s@),
            None => parse_allow_deny_spec(v@.subrange(lo as int, hi as int)) is None,
        },
{
    let (a, b) = trim_range(v, lo, hi);
    let from = chars_of("from");
    let (a2, b2) = if starts_with_range(v, a, b, &from) {
        proof {
            assert(v@.subrange(a as int, b as int).skip(from@.len() as int) =~= v@.subrange(
                a + from@.len(),
                b as int,
            ));
        }
        trim_range(v, a + from.len(), b)
    } else {
        (a, b)
    };
    let all = chars_of("all");
    if a2 == b2 || eq_ignore_ascii_case_range(v, a2, b2, &all) {
        return None;
    }
    let (ta, tb) = first_token_or_all_range(v, a2, b2);
    Some(substring(v, ta, tb))
}

/// Parses the head line of an nginx `if` block.
fn parse_nginx_if_condition(v: &Vec<char>, lo: usize, hi: usize) -> (r: Option<RewriteCondition>)
    requires
        lo <= hi <= v.len(),
    ensures
        match r {
            Some(c) => parse_nginx_if_spec(v@.subrange(lo as int, hi as int)) == Some(c@),
            None => parse_nginx_if_spec(v@.subrange(lo as int, hi as int)) is None,
        },
{
    let ghost line = v@.subrange(lo as int, hi as int);
    let st = match find_char_range(v, lo, hi, '(') {
        Some(i) => i,
        None => return None,
    };
    let en = match rfind_char_range(v, lo, hi, ')') {
        Some(i) => i,
        None => return None,
    };
    if en <= st {
        return None;
    }
    proof {
        assert(line.subrange(st - lo + 1, en - lo) =~= v@.subrange(st + 1, en as int));
    }
    let (ia, ib) = trim_range(v, st + 1, en);
    let ghost inner = v@.subrange(ia as int, ib as int);
    let t = match find_char_range(v, ia, ib, '~') {
        Some(t) => t,
        None => return None,
    };
    proof {
        assert(inner.take(t - ia) =~= v@.subrange(ia as int, t as int));
        assert(inner.skip(t - ia + 1) =~= v@.subrange(t + 1, ib as int));
    }
    let (va, vb) = trim_range(v, ia, t);
    let (p1a, p1b) = trim_range(v, t + 1, ib);
    let p2a = trim_start_char_range(v, p1a, p1b, '*');
    let (p3a, p3b) = trim_range(v, p2a, p1b);
    let (pa, pb) = unquote_range(v, p3a, p3b);
    let name = substring(v, va, vb);
    let variable = if str_eq(name.as_str(), "$http_host") {
        owned("HTTP_HOST")
    } else if str_eq(name.as_str(), "$request_method") {
        owned("REQUEST_METHOD")
    } else if str_eq(name.as_str(), "$query_string") || str_eq(name.as_str(), "$args") {
        owned("QUERY_STRING")
    } else {
        return None;
    };
    let pattern = substring(v, pa, pb);
    Some(RewriteCondition { variable, pattern })
}

/// Parses a `return`/`rewrite` line inside an nginx `if` block.
fn parse_nginx_return_or_rewrite(v: &Vec<char>, lo: usize, hi: usize) -> (r: Option<RewriteRule>)
    requires
        lo <= hi <= v.len(),
    ensures
        match r {
            Some(rule) => parse_nginx_return_spec(v@.subrange(lo as int, hi as int)) == Some(
                rule@,
            ),
            None => parse_nginx_return_spec(v@.subrange(lo as int, hi as int)) is None,
        },
{
    let (a0, b0) = trim_range(v, lo, hi);
    let b1 = trim_end_char_range(v, a0, b0, ';');
    let (a, b) = trim_range(v, a0, b1);
    if let Some((ra, rb)) = strip_directive_range(v, a, b, "return") {
        let (_ca, _cb) = match first_token_range(v, ra, rb) {
            Some(t) => t,
            None => return None,
        };
        let after = after_first_token_range(v, ra, rb);
        let (ta, tb) = match first_token_range(v, after, rb) {
            Some(t) => t,
            None => return None,
        };
        let rule = RewriteRule {
            pattern: owned("^.*$"),
            substitution: substring(v, ta, tb),
            redirect: true,
            conditions: Vec::new(),
        };
        proof {
            assert(rule@.conditions =~= Seq::<CondView>::empty());
        }
        return Some(rule);
    }
    if let Some((ra, rb)) = strip_directive_range(v, a, b, "rewrite") {
        let (pa, pb) = match first_token_range(v, ra, rb) {
            Some(t) => t,
            None => return None,
        };
        let after = after_first_token_range(v, ra, rb);
        let (sa, sb) = match first_token_range(v, after, rb) {
            Some(t) => t,
            None => return None,
        };
        let after2 = after_first_token_range(v, after, rb);
        let redirect = match first_token_range(v, after2, rb) {
            Some((fa, fb)) => {
                let fr = chars_of("redirect");
                let fp = chars_of("permanent");
                eq_range(v, fa, fb, &fr) || eq_range(v, fa, fb, &fp)
            },
            None => {
                proof {
                    reveal_strlit("redirect");
                    reveal_strlit("permanent");
                    assert("redirect"@.len() > 0);
                    assert("permanent"@.len() > 0);
                    assert(Seq::<char>::empty() != "redirect"@);
                    assert(Seq::<char>::empty() != "permanent"@);
                }
                false
            },
        };
        let rule = RewriteRule {
            pattern: substring(v, pa, pb),
            substitution: substring(v, sa, sb),
            redirect,
            conditions: Vec::new(),
        };
        proof {
            let line = v@.subrange(a as int, b as int);
            let rest = v@.subrange(ra as int, rb as int);
            assert(strip_directive(line, "return"@) is None);
            assert(strip_directive(line, "rewrite"@) == Some(rest));
            assert(first_token(rest) == Some(rule@.pattern));
            assert(second_token(rest) == Some(rule@.substitution));
            let flag = match third_token(rest) {
                Some(f) => f,
                None => seq![],
            };
            assert(redirect == (flag == "redirect"@ || flag == "permanent"@));
            assert(rule@.conditions =~= Seq::<CondView>::empty());
        }
        return Some(rule);
    }
    None
}

// ---------------------------------------------------------------------------
// Whole-block parsing: specification
// ---------------------------------------------------------------------------

/// What the directives read so far have set.
pub struct AccModel {
    pub host: Option<Seq<char>>,
    pub docroot: Option<Seq<char>>,
    pub fastcgi_addr: Option<Seq<char>>,
    pub rewrite_rules: Seq<RuleView>,
    pub basic_auth: Option<BasicAuthView>,
    /// An `AuthType Digest` is in force: `AuthUserFile` sets nothing.
    pub digest_seen: bool,
    pub tls_cert_path: Option<Seq<char>>,
    pub tls_key_path: Option<Seq<char>>,
    pub allow: Seq<Seq<char>>,
    pub deny: Seq<Seq<char>>,
}

/// Apache parsing state: the settings, the `RewriteCond`s waiting for the
/// next `RewriteRule`, and the last `AuthName`.
pub struct ApacheModel {
    pub acc: AccModel,
    pub pending: Seq<CondView>,
    pub auth_name: Option<Seq<char>>,
}

/// nginx parsing state: the settings and the last `auth_basic` realm.
pub struct NginxModel {
    pub acc: AccModel,
    pub realm: Option<Seq<char>>,
}

/// Nothing read yet.
pub open spec fn acc_init() -> AccModel {
    AccModel {
        host: None,
        docroot: None,
        fastcgi_addr: None,
        rewrite_rules: seq![],
        basic_auth: None,
        digest_seen: false,
        tls_cert_path: None,
        tls_key_path: None,
        allow: seq![],
        deny: seq![],
    }
}

/// `o`, or `Some(x)` when `o` is empty (`Option::get_or_insert_with`).
pub open spec fn keep_first(o: Option<Seq<char>>, x: Seq<char>) -> Option<Seq<char>> {
    match o {
        Some(v) => Some(v),
        None => Some(x),
    }
}

/// The realm used when none was named.
pub open spec fn realm_or_default(o: Option<Seq<char>>) -> Seq<char> {
    match o {
        Some(r) => r,
        None => "Restricted"@,
    }
}

/// One line of an Apache block.
pub open spec fn apache_step(st: ApacheModel, raw: Seq<char>) -> ApacheModel {
    let line = trim(raw);
    let acc = st.acc;
    if let Some(rest) = strip_directive(line, "ServerName"@) {
        ApacheModel { acc: AccModel { host: keep_first(acc.host, rest), ..acc }, ..st }
    } else if let Some(rest) = strip_directive(line, "DocumentRoot"@) {
        ApacheModel { acc: AccModel { docroot: keep_first(acc.docroot, unquote(rest)), ..acc }, ..st }
    } else if let Some(rest) = strip_directive(line, "SetHandler"@) {
        match strip_prefix(unquote(rest), "proxy:fcgi://"@) {
            Some(addr) => ApacheModel { acc: AccModel { fastcgi_addr: Some(addr), ..acc }, ..st },
            None => st,
        }
    } else if let Some(rest) = strip_directive(line, "RewriteCond"@) {
        match parse_rewrite_cond_spec(rest) {
            Some(c) => ApacheModel { pending: st.pending.push(c), ..st },
            None => st,
        }
    } else if let Some(rest) = strip_directive(line, "RewriteRule"@) {
        match parse_rewrite_rule_spec(rest) {
            Some(r) => ApacheModel {
                acc: AccModel {
                    rewrite_rules: acc.rewrite_rules.push(RuleView { conditions: st.pending, ..r }),
                    ..acc
                },
                pending: seq![],
                ..st
            },
            None => ApacheModel { pending: seq![], ..st },
        }
    } else if let Some(rest) = strip_directive(line, "AuthType"@) {
        let auth_type = unicode_lowercase(unquote(rest));
        if auth_type == "digest"@ {
            ApacheModel { acc: AccModel { digest_seen: true, ..acc }, ..st }
        } else if auth_type == "basic"@ {
            ApacheModel { acc: AccModel { digest_seen: false, ..acc }, ..st }
        } else {
            st
        }
    } else if let Some(rest) = strip_directive(line, "AuthName"@) {
        ApacheModel { auth_name: Some(unquote(rest)), ..st }
    } else if let Some(rest) = strip_directive(line, "AuthUserFile"@) {
        if !acc.digest_seen {
            ApacheModel {
                acc: AccModel {
                    basic_auth: Some(
                        BasicAuthView {
                            realm: realm_or_default(st.auth_name),
                            user_file: unquote(rest),
                        },
                    ),
                    ..acc
                },
                ..st
            }
        } else {
            st
        }
    } else if let Some(rest) = strip_directive(line, "SSLCertificateFile"@) {
        ApacheModel { acc: AccModel { tls_cert_path: Some(unquote(rest)), ..acc }, ..st }
    } else if let Some(rest) = strip_directive(line, "SSLCertificateKeyFile"@) {
        ApacheModel { acc: AccModel { tls_key_path: Some(unquote(rest)), ..acc }, ..st }
    } else if let Some(rest) = strip_directive(line, "Allow"@) {
        match parse_allow_deny_spec(rest) {
            Some(ip) => ApacheModel { acc: AccModel { allow: acc.allow.push(ip), ..acc }, ..st },
            None => st,
        }
    } else if let Some(rest) = strip_directive(line, "Deny"@) {
        match parse_allow_deny_spec(rest) {
            Some(ip) => ApacheModel { acc: AccModel { deny: acc.deny.push(ip), ..acc }, ..st },
            None => st,
        }
    } else {
        st
    }
}

/// Folds [`apache_step`] over lines.
pub open spec fn apache_fold(st: ApacheModel, ls: Seq<Seq<char>>) -> ApacheModel
    decreases ls.len(),
{
    if ls.len() == 0 {
        st
    } else {
        apache_fold(apache_step(st, ls[0]), ls.drop_first())
    }
}

/// The settings an Apache block gives.
pub open spec fn build_spec(acc: AccModel) -> Result<VhostView, ImportError> {
    match acc.host {
        None => Err(ImportError::MissingHost),
        Some(host) => match acc.docroot {
            None => Err(ImportError::MissingDocroot),
            Some(docroot) => Ok(
                VhostView {
                    host,
                    docroot,
                    php_enabled: acc.fastcgi_addr is Some,
                    compat_mode: CompatMode::Nginx,
                    php_mode: match acc.fastcgi_addr {
                        Some(addr) => PhpModeView::FastCgi(addr),
                        None => PhpModeView::BuiltinServer,
                    },
                    rewrite_rules: acc.rewrite_rules,
                    basic_auth: acc.basic_auth,
                    tls_cert: match acc.tls_cert_path {
                        Some(c) => Some(TlsCertView { cert_path: c, key_path: acc.tls_key_path }),
                        None => None,
                    },
                    access_control: if acc.allow.len() == 0 && acc.deny.len() == 0 {
                        None
                    } else {
                        Some(AccessControlView { allow: acc.allow, deny: acc.deny })
                    },
                },
            ),
        },
    }
}

/// What importing an Apache block gives.
pub open spec fn parse_apache_spec(conf: Seq<char>) -> Result<VhostView, ImportError> {
    build_spec(
        apache_fold(ApacheModel { acc: acc_init(), pending: seq![], auth_name: None }, lines(conf)).acc,
    )
}

/// Model of an import result.
pub open spec fn import_view(r: Result<WebVhostConfig, ImportError>) -> Result<VhostView, ImportError> {
    match r {
        Ok(c) => Ok(c@),
        Err(e) => Err(e),
    }
}

// ---------------------------------------------------------------------------
// Whole-block parsing: implementation
// ---------------------------------------------------------------------------

/// The settings read so far.
struct ParseAccumulator {
    host: Option<String>,
    docroot: Option<String>,
    fastcgi_addr: Option<String>,
    rewrite_rules: Vec<RewriteRule>,
    basic_auth: Option<BasicAuthConfig>,
    digest_seen: bool,
    tls_cert_path: Option<String>,
    tls_key_path: Option<String>,
    allow: Vec<String>,
    deny: Vec<String>,
}

impl View for ParseAccumulator {
    type V = AccModel;

    closed spec fn view(&self) -> AccModel {
        AccModel {
            host: crate::web_vhost::opt_string_view(self.host),
            docroot: crate::web_vhost::opt_string_view(self.docroot),
            fastcgi_addr: crate::web_vhost::opt_string_view(self.fastcgi_addr),
            rewrite_rules: crate::rewrite::rules_view(self.rewrite_rules@),
            basic_auth: crate::web_vhost::opt_view(self.basic_auth),
            digest_seen: self.digest_seen,
            tls_cert_path: crate::web_vhost::opt_string_view(self.tls_cert_path),
            tls_key_path: crate::web_vhost::opt_string_view(self.tls_key_path),
            allow: crate::web_vhost::strings_view(self.allow@),
            deny: crate::web_vhost::strings_view(self.deny@),
        }
    }
}

impl ParseAccumulator {
    fn new() -> (r: Self)
        ensures
            r@ == acc_init(),
    {
        let r = ParseAccumulator {
            host: None,
            docroot: None,
            fastcgi_addr: None,
            rewrite_rules: Vec::new(),
            basic_auth: None,
            digest_seen: false,
            tls_cert_path: None,
            tls_key_path: None,
            allow: Vec::new(),
            deny: Vec::new(),
        };
        proof {
            assert(r@.rewrite_rules =~= Seq::<RuleView>::empty());
            assert(r@.allow =~= Seq::<Seq<char>>::empty());
            assert(r@.deny =~= Seq::<Seq<char>>::empty());
        }
        r
    }
}

/// Apache parsing state.
struct ApacheState {
    acc: ParseAccumulator,
    pending: Vec<RewriteCondition>,
    auth_name: Option<String>,
}

impl View for ApacheState {
    type V = ApacheModel;

    closed spec fn view(&self) -> ApacheModel {
        ApacheModel {
            acc: self.acc@,
            pending: self.pending@.map_values(|c: RewriteCondition| c@),
            auth_name: crate::web_vhost::opt_string_view(self.auth_name),
        }
    }
}

/// Applies one Apache line, `v@.subrange(lo, hi)`.
fn apache_line(st: &mut ApacheState, v: &Vec<char>, lo: usize, hi: usize)
    requires
        lo <= hi <= v.len(),
    ensures
        final(st)@ == apache_step(old(st)@, v@.subrange(lo as int, hi as int)),
{
    let ghost old_st = st@;
    let ghost raw = v@.subrange(lo as int, hi as int);
    let (a, b) = trim_range(v, lo, hi);
    let ghost line = v@.subrange(a as int, b as int);
    assert(line == trim(raw));
    if let Some((ra, rb)) = strip_directive_range(v, a, b, "ServerName") {
        if st.acc.host.is_none() {
            st.acc.host = Some(substring(v, ra, rb));
        }
    } else if let Some((ra, rb)) = strip_directive_range(v, a, b, "DocumentRoot") {
        if st.acc.docroot.is_none() {
            let (ua, ub) = unquote_range(v, ra, rb);
            st.acc.docroot = Some(substring(v, ua, ub));
        }
    } else if let Some((ra, rb)) = strip_directive_range(v, a, b, "SetHandler") {
        let (ua, ub) = unquote_range(v, ra, rb);
        let prefix = chars_of("proxy:fcgi://");
        if starts_with_range(v, ua, ub, &prefix) {
            proof {
                assert(v@.subrange(ua as int, ub as int).skip(prefix@.len() as int) =~= v@.subrange(
                    ua + prefix@.len(),
                    ub as int,
                ));
            }
            st.acc.fastcgi_addr = Some(substring(v, ua + prefix.len(), ub));
        }
    } else if let Some((ra, rb)) = strip_directive_range(v, a, b, "RewriteCond") {
        if let Some(cond) = parse_apache_rewrite_cond(v, ra, rb) {
            let ghost c = cond@;
            st.pending.push(cond);
            proof {
                assert(st@.pending =~= old_st.pending.push(c));
            }
        }
    } else if let Some((ra, rb)) = strip_directive_range(v, a, b, "RewriteRule") {
        let mut taken: Vec<RewriteCondition> = Vec::new();
        std::mem::swap(&mut taken, &mut st.pending);
        if let Some(mut rule) = parse_apache_rewrite_rule(v, ra, rb) {
            let ghost r0 = rule@;
            rule.conditions = taken;
            let ghost r1 = rule@;
            assert(r1 == RuleView { conditions: old_st.pending, ..r0 });
            st.acc.rewrite_rules.push(rule);
            proof {
                assert(st@.acc.rewrite_rules =~= old_st.acc.rewrite_rules.push(r1));
            }
        }
        proof {
            assert(st@.pending =~= Seq::<CondView>::empty());
        }
    } else if let Some((ra, rb)) = strip_directive_range(v, a, b, "AuthType") {
        let (ua, ub) = unquote_range(v, ra, rb);
        let raw_type = substring(v, ua, ub);
        let auth_type = to_lowercase(raw_type.as_str());
        if str_eq(auth_type.as_str(), "digest") {
            st.acc.digest_seen = true;
        } else if str_eq(auth_type.as_str(), "basic") {
            st.acc.digest_seen = false;
        }
    } else if let Some((ra, rb)) = strip_directive_range(v, a, b, "AuthName") {
        let (ua, ub) = unquote_range(v, ra, rb);
        st.auth_name = Some(substring(v, ua, ub));
    } else if let Some((ra, rb)) = strip_directive_range(v, a, b, "AuthUserFile") {
        if !st.acc.digest_seen {
            let realm = match &st.auth_name {
                Some(n) => n.clone(),
                None => owned("Restricted"),
            };
            let (ua, ub) = unquote_range(v, ra, rb);
            st.acc.basic_auth = Some(BasicAuthConfig { realm, user_file: substring(v, ua, ub) });
        }
    } else if let Some((ra, rb)) = strip_directive_range(v, a, b, "SSLCertificateFile") {
        let (ua, ub) = unquote_range(v, ra, rb);
        st.acc.tls_cert_path = Some(substring(v, ua, ub));
    } else if let Some((ra, rb)) = strip_directive_range(v, a, b, "SSLCertificateKeyFile") {
        let (ua, ub) = unquote_range(v, ra, rb);
        st.acc.tls_key_path = Some(substring(v, ua, ub));
    } else if let Some((ra, rb)) = strip_directive_range(v, a, b, "Allow") {
        if let Some(ip) = parse_apache_allow_deny(v, ra, rb) {
            let ghost ipv = ip@;
            st.acc.allow.push(ip);
            proof {
                assert(st@.acc.allow =~= old_st.acc.allow.push(ipv));
            }
        }
    } else if let Some((ra, rb)) = strip_directive_range(v, a, b, "Deny") {
        if let Some(ip) = parse_apache_allow_deny(v, ra, rb) {
            let ghost ipv = ip@;
            st.acc.deny.push(ip);
            proof {
                assert(st@.acc.deny =~= old_st.acc.deny.push(ipv));
            }
        }
    }
}

/// Turns the settings read into a configuration.
fn build_config(acc: ParseAccumulator) -> (r: Result<WebVhostConfig, ImportError>)
    ensures
        import_view(r) == build_spec(acc@),
{
    let host = match acc.host {
        Some(h) => h,
        None => return Err(ImportError::MissingHost),
    };
    let docroot = match acc.docroot {
        Some(d) => d,
        None => return Err(ImportError::MissingDocroot),
    };
    let (php_enabled, php_mode) = match acc.fastcgi_addr {
        Some(addr) => (true, PhpMode::FastCgi { fastcgi_addr: addr }),
        None => (false, PhpMode::BuiltinServer),
    };
    let tls_cert = match acc.tls_cert_path {
        Some(cert_path) => Some(TlsCertConfig { cert_path, key_path: acc.tls_key_path }),
        None => None,
    };
    let access_control = if acc.allow.len() == 0 && acc.deny.len() == 0 {
        None
    } else {
        Some(AccessControlConfig { allow: acc.allow, deny: acc.deny })
    };
    Ok(
        WebVhostConfig {
            host,
            docroot,
            php_enabled,
            compat_mode: CompatMode::Nginx,
            php_mode,
            rewrite_rules: acc.rewrite_rules,
            basic_auth: acc.basic_auth,
            tls_cert,
            access_control,
        },
    )
}

/// Reads a site configuration out of an Apache `<VirtualHost>` block (with
/// or without the `<VirtualHost>` lines themselves).
pub fn parse_apache_vhost(conf: &str) -> (r: Result<WebVhostConfig, ImportError>)
    ensures
        import_view(r) == parse_apache_spec(conf@),
{
    let v = chars_of(conf);
    let ranges = line_ranges(&v);
    let ghost ls = lines(v@);
    let mut st = ApacheState { acc: ParseAccumulator::new(), pending: Vec::new(), auth_name: None };
    let ghost init = st@;
    proof {
        assert(st@.pending =~= Seq::<CondView>::empty());
        assert(init == ApacheModel { acc: acc_init(), pending: seq![], auth_name: None });
        assert(ls.skip(0) =~= ls);
    }
    let mut k: usize = 0;
    while k < ranges.len()
        invariant
            k <= ranges@.len(),
            ranges@.len() == ls.len(),
            ls == lines(v@),
            forall|j: int| 0 <= j < ranges@.len() ==> (#[trigger] ranges@[j]).0 <= ranges@[j].1 <= v@.len(),
            forall|j: int|
                0 <= j < ranges@.len() ==> v@.subrange((#[trigger] ranges@[j]).0 as int, ranges@[j].1 as int)
                    == ls[j],
            apache_fold(st@, ls.skip(k as int)) == apache_fold(init, ls),
        decreases ranges.len() - k,
    {
        let (lo, hi) = ranges[k];
        proof {
            assert(ranges@[k as int] == (lo, hi));
            assert(ls.skip(k as int)[0] == ls[k as int]);
            assert(ls.skip(k as int).drop_first() =~= ls.skip(k + 1));
        }
        apache_line(&mut st, &v, lo, hi);
        k += 1;
    }
    proof {
        assert(ls.skip(k as int) =~= Seq::<Seq<char>>::empty());
    }
    build_config(st.acc)
}

// ---------------------------------------------------------------------------
// nginx: specification
// ---------------------------------------------------------------------------

/// An nginx line as the parser looks at it: trimmed, without trailing `;`.
pub open spec fn nginx_line(raw: Seq<char>) -> Seq<char> {
    trim(trim_end_char(trim(raw), ';'))
}

/// `allow`/`deny` value: the argument without `;` and quotes.
pub open spec fn nginx_access_value(rest: Seq<char>) -> Seq<char> {
    unquote(trim(trim_end_char(rest, ';')))
}

/// One non-`if` nginx directive line, or nothing when the line holds none
/// of the directives read.
pub open spec fn nginx_directive(st: NginxModel, line: Seq<char>) -> Option<NginxModel> {
    let acc = st.acc;
    if let Some(rest) = strip_directive(line, "server_name"@) {
        Some(NginxModel { acc: AccModel { host: keep_first(acc.host, first_token_or_all(rest)), ..acc }, ..st })
    } else if let Some(rest) = strip_directive(line, "root"@) {
        Some(NginxModel { acc: AccModel { docroot: keep_first(acc.docroot, unquote(rest)), ..acc }, ..st })
    } else if let Some(rest) = strip_directive(line, "fastcgi_pass"@) {
        Some(NginxModel { acc: AccModel { fastcgi_addr: keep_first(acc.fastcgi_addr, unquote(rest)), ..acc }, ..st })
    } else if let Some(rest) = strip_directive(line, "auth_basic"@) {
        if !eq_ignore_ascii_case(unquote(rest), "off"@) {
            Some(NginxModel { realm: Some(unquote(rest)), ..st })
        } else {
            Some(st)
        }
    } else if let Some(rest) = strip_directive(line, "auth_basic_user_file"@) {
        Some(
            NginxModel {
                acc: AccModel {
                    basic_auth: Some(
                        BasicAuthView { realm: realm_or_default(st.realm), user_file: unquote(rest) },
                    ),
                    ..acc
                },
                ..st
            },
        )
    } else if let Some(rest) = strip_directive(line, "ssl_certificate_key"@) {
        Some(NginxModel { acc: AccModel { tls_key_path: Some(unquote(rest)), ..acc }, ..st })
    } else if let Some(rest) = strip_directive(line, "ssl_certificate"@) {
        Some(NginxModel { acc: AccModel { tls_cert_path: Some(unquote(rest)), ..acc }, ..st })
    } else if let Some(rest) = strip_directive(line, "allow"@) {
        let value = nginx_access_value(rest);
        if !eq_ignore_ascii_case(value, "all"@) {
            Some(NginxModel { acc: AccModel { allow: acc.allow.push(value), ..acc }, ..st })
        } else {
            Some(st)
        }
    } else if let Some(rest) = strip_directive(line, "deny"@) {
        Some(NginxModel { acc: AccModel { deny: acc.deny.push(nginx_access_value(rest)), ..acc }, ..st })
    } else {
        None
    }
}

/// Whether a line opens an `if` block.
pub open spec fn opens_if(line: Seq<char>) -> bool {
    starts_with(line, "if "@) || starts_with(line, "if("@)
}

/// Whether a trimmed line starts with `}`.
pub open spec fn closes_block(raw: Seq<char>) -> bool {
    let t = trim(raw);
    t.len() > 0 && t[0] == '}'
}

/// The first `return`/`rewrite` rule among lines `j..` before a line that
/// closes the block.
pub open spec fn nginx_if_rule(ls: Seq<Seq<char>>, j: int) -> Option<RuleView>
    decreases ls.len() - j,
{
    if j < 0 || j >= ls.len() || closes_block(ls[j]) {
        None
    } else {
        match parse_nginx_return_spec(trim(ls[j])) {
            Some(r) => Some(r),
            None => nginx_if_rule(ls, j + 1),
        }
    }
}

/// The first line at or after `i` that closes a block (or `ls.len()`).
pub open spec fn nginx_close(ls: Seq<Seq<char>>, i: int) -> int
    decreases ls.len() - i,
{
    if i < 0 || i >= ls.len() || closes_block(ls[i]) {
        i
    } else {
        nginx_close(ls, i + 1)
    }
}

/// `nginx_close` does not go backwards, nor past the end.
pub proof fn lemma_nginx_close_ge(ls: Seq<Seq<char>>, i: int)
    ensures
        nginx_close(ls, i) >= i,
        0 <= i <= ls.len() ==> nginx_close(ls, i) <= ls.len(),
    decreases ls.len() - i,
{
    if !(i < 0 || i >= ls.len() || closes_block(ls[i])) {
        lemma_nginx_close_ge(ls, i + 1);
    }
}

/// Parses lines `i..` of an nginx block.
pub open spec fn nginx_run(st: NginxModel, ls: Seq<Seq<char>>, i: int) -> NginxModel
    decreases ls.len() + 1 - i,
{
    if i < 0 || i >= ls.len() {
        st
    } else {
        let line = nginx_line(ls[i]);
        match nginx_directive(st, line) {
            Some(st2) => nginx_run(st2, ls, i + 1),
            None => if opens_if(line) && parse_nginx_if_spec(line) is Some {
                let cond = parse_nginx_if_spec(line)->Some_0;
                let st2 = match nginx_if_rule(ls, i + 1) {
                    Some(r) => NginxModel {
                        acc: AccModel {
                            rewrite_rules: st.acc.rewrite_rules.push(
                                RuleView { conditions: seq![cond], ..r },
                            ),
                            ..st.acc
                        },
                        ..st
                    },
                    None => st,
                };
                proof {
                    lemma_nginx_close_ge(ls, i);
                }
                nginx_run(st2, ls, nginx_close(ls, i) + 1)
            } else {
                nginx_run(st, ls, i + 1)
            },
        }
    }
}

/// What importing an nginx block gives.
pub open spec fn parse_nginx_spec(conf: Seq<char>) -> Result<VhostView, ImportError> {
    build_spec(nginx_run(NginxModel { acc: acc_init(), realm: None }, lines(conf), 0).acc)
}

// ---------------------------------------------------------------------------
// nginx: implementation
// ---------------------------------------------------------------------------

/// nginx parsing state.
struct NginxState {
    acc: ParseAccumulator,
    realm: Option<String>,
}

impl View for NginxState {
    type V = NginxModel;

    closed spec fn view(&self) -> NginxModel {
        NginxModel { acc: self.acc@, realm: crate::web_vhost::opt_string_view(self.realm) }
    }
}

/// Range form of [`nginx_access_value`].
fn nginx_access_value_range(v: &Vec<char>, lo: usize, hi: usize) -> (r: (usize, usize))
    requires
        lo <= hi <= v.len(),
    ensures
        lo <= r.0 <= r.1 <= hi,
        v@.subrange(r.0 as int, r.1 as int) == nginx_access_value(v@.subrange(lo as int, hi as int)),
{
    let b = trim_end_char_range(v, lo, hi, ';');
    let (a2, b2) = trim_range(v, lo, b);
    unquote_range(v, a2, b2)
}

/// Applies a non-`if` directive line `[a, b)`; `false` when the line holds
/// none of them (then nothing changed).
fn nginx_directive_exec(st: &mut NginxState, v: &Vec<char>, a: usize, b: usize) -> (found: bool)
    requires
        a <= b <= v.len(),
    ensures
        match nginx_directive(old(st)@, v@.subrange(a as int, b as int)) {
            Some(m) => found && final(st)@ == m,
            None => !found && final(st)@ == old(st)@,
        },
{
    let ghost old_st = st@;
    if let Some((ra, rb)) = strip_directive_range(v, a, b, "server_name") {
        if st.acc.host.is_none() {
            let (ta, tb) = first_token_or_all_range(v, ra, rb);
            st.acc.host = Some(substring(v, ta, tb));
        }
    } else if let Some((ra, rb)) = strip_directive_range(v, a, b, "root") {
        if st.acc.docroot.is_none() {
            let (ua, ub) = unquote_range(v, ra, rb);
            st.acc.docroot = Some(substring(v, ua, ub));
        }
    } else if let Some((ra, rb)) = strip_directive_range(v, a, b, "fastcgi_pass") {
        if st.acc.fastcgi_addr.is_none() {
            let (ua, ub) = unquote_range(v, ra, rb);
            st.acc.fastcgi_addr = Some(substring(v, ua, ub));
        }
    } else if let Some((ra, rb)) = strip_directive_range(v, a, b, "auth_basic") {
        let (ua, ub) = unquote_range(v, ra, rb);
        let off = chars_of("off");
        if !eq_ignore_ascii_case_range(v, ua, ub, &off) {
            st.realm = Some(substring(v, ua, ub));
        }
    } else if let Some((ra, rb)) = strip_directive_range(v, a, b, "auth_basic_user_file") {
        let realm = match &st.realm {
            Some(n) => n.clone(),
            None => owned("Restricted"),
        };
        let (ua, ub) = unquote_range(v, ra, rb);
        st.acc.basic_auth = Some(BasicAuthConfig { realm, user_file: substring(v, ua, ub) });
    } else if let Some((ra, rb)) = strip_directive_range(v, a, b, "ssl_certificate_key") {
        let (ua, ub) = unquote_range(v, ra, rb);
        st.acc.tls_key_path = Some(substring(v, ua, ub));
    } else if let Some((ra, rb)) = strip_directive_range(v, a, b, "ssl_certificate") {
        let (ua, ub) = unquote_range(v, ra, rb);
        st.acc.tls_cert_path = Some(substring(v, ua, ub));
    } else if let Some((ra, rb)) = strip_directive_range(v, a, b, "allow") {
        let (ua, ub) = nginx_access_value_range(v, ra, rb);
        let all = chars_of("all");
        if !eq_ignore_ascii_case_range(v, ua, ub, &all) {
            let value = substring(v, ua, ub);
            let ghost vv = value@;
            st.acc.allow.push(value);
            proof {
                assert(st@.acc.allow =~= old_st.acc.allow.push(vv));
            }
        }
    } else if let Some((ra, rb)) = strip_directive_range(v, a, b, "deny") {
        let (ua, ub) = nginx_access_value_range(v, ra, rb);
        let value = substring(v, ua, ub);
        let ghost vv = value@;
        st.acc.deny.push(value);
        proof {
            assert(st@.acc.deny =~= old_st.acc.deny.push(vv));
        }
    } else {
        return false;
    }
    true
}

/// The ranges of the lines of `v` are `ranges`.
pub open spec fn ranges_are_lines(v: Seq<char>, ranges: Seq<(usize, usize)>) -> bool {
    &&& ranges.len() == lines(v).len()
    &&& forall|j: int| 0 <= j < ranges.len() ==> (#[trigger] ranges[j]).0 <= ranges[j].1 <= v.len()
    &&& forall|j: int|
        0 <= j < ranges.len() ==> v.subrange((#[trigger] ranges[j]).0 as int, ranges[j].1 as int)
            == lines(v)[j]
}

/// Executable form of [`nginx_if_rule`].
fn find_if_rule(v: &Vec<char>, ranges: &Vec<(usize, usize)>, start: usize) -> (r: Option<RewriteRule>)
    requires
        ranges_are_lines(v@, ranges@),
    ensures
        match r {
            Some(rule) => nginx_if_rule(lines(v@), start as int) == Some(rule@),
            None => nginx_if_rule(lines(v@), start as int) is None,
        },
{
    let ghost ls = lines(v@);
    let mut j = start;
    while j < ranges.len()
        invariant
            start <= j,
            ranges_are_lines(v@, ranges@),
            ls == lines(v@),
            nginx_if_rule(ls, start as int) == nginx_if_rule(ls, j as int),
        decreases ranges.len() - j,
    {
        let (jlo, jhi) = ranges[j];
        assert(ranges@[j as int] == (jlo, jhi));
        let (ia, ib) = trim_range(v, jlo, jhi);
        if ia < ib && v[ia] == '}' {
            return None;
        }
        if let Some(rule) = parse_nginx_return_or_rewrite(v, ia, ib) {
            return Some(rule);
        }
        j += 1;
    }
    None
}

/// Executable form of [`nginx_close`].
fn find_close(v: &Vec<char>, ranges: &Vec<(usize, usize)>, start: usize) -> (k: usize)
    requires
        ranges_are_lines(v@, ranges@),
        start <= ranges@.len(),
    ensures
        k as int == nginx_close(lines(v@), start as int),
        start <= k <= ranges@.len(),
{
    let ghost ls = lines(v@);
    let mut k = start;
    while k < ranges.len()
        invariant
            start <= k <= ranges@.len(),
            ranges_are_lines(v@, ranges@),
            ls == lines(v@),
            nginx_close(ls, start as int) == nginx_close(ls, k as int),
        decreases ranges.len() - k,
    {
        let (klo, khi) = ranges[k];
        assert(ranges@[k as int] == (klo, khi));
        let (ka, kb) = trim_range(v, klo, khi);
        if ka < kb && v[ka] == '}' {
            return k;
        }
        k += 1;
    }
    k
}

/// Reads a site configuration out of an nginx `server { ... }` block (with
/// or without the `server {` line itself).
pub fn parse_nginx_server(conf: &str) -> (r: Result<WebVhostConfig, ImportError>)
    ensures
        import_view(r) == parse_nginx_spec(conf@),
{
    let v = chars_of(conf);
    let ranges = line_ranges(&v);
    let ghost ls = lines(v@);
    let mut st = NginxState { acc: ParseAccumulator::new(), realm: None };
    let ghost init = st@;
    assert(init == NginxModel { acc: acc_init(), realm: None });
    let mut i: usize = 0;
    while i < ranges.len()
        invariant
            i <= ranges@.len() + 1,
            ranges@.len() == ls.len(),
            ls == lines(v@),
            forall|j: int| 0 <= j < ranges@.len() ==> (#[trigger] ranges@[j]).0 <= ranges@[j].1 <= v@.len(),
            forall|j: int|
                0 <= j < ranges@.len() ==> v@.subrange((#[trigger] ranges@[j]).0 as int, ranges@[j].1 as int)
                    == ls[j],
            nginx_run(st@, ls, i as int) == nginx_run(init, ls, 0),
        decreases ranges.len() + 1 - i,
    {
        let (lo, hi) = ranges[i];
        assert(ranges@[i as int] == (lo, hi));
        let ghost before = st@;
        let (a0, b0) = trim_range(&v, lo, hi);
        let b1 = trim_end_char_range(&v, a0, b0, ';');
        let (a, b) = trim_range(&v, a0, b1);
        assert(v@.subrange(a as int, b as int) == nginx_line(ls[i as int]));
        if nginx_directive_exec(&mut st, &v, a, b) {
            i += 1;
        } else {
            let if_sp = chars_of("if ");
            let if_paren = chars_of("if(");
            let opens = starts_with_range(&v, a, b, &if_sp) || starts_with_range(&v, a, b, &if_paren);
            let cond = if opens {
                parse_nginx_if_condition(&v, a, b)
            } else {
                None
            };
            match cond {
                Some(cond) => {
                    let ghost cv = cond@;
                    let found = find_if_rule(&v, &ranges, i + 1);
                    if let Some(mut rule) = found {
                        let ghost r0 = rule@;
                        let mut conds: Vec<RewriteCondition> = Vec::new();
                        conds.push(cond);
                        rule.conditions = conds;
                        let ghost r1 = rule@;
                        assert(r1 == RuleView { conditions: seq![cv], ..r0 }) by {
                            assert(r1.conditions =~= seq![cv]);
                        }
                        st.acc.rewrite_rules.push(rule);
                        proof {
                            assert(st@.acc.rewrite_rules =~= before.acc.rewrite_rules.push(r1));
                        }
                    }
                    let k = find_close(&v, &ranges, i);
                    proof {
                        let line = nginx_line(ls[i as int]);
                        assert(nginx_directive(before, line) is None);
                        assert(opens_if(line));
                        assert(parse_nginx_if_spec(line) == Some(cv));
                        let st2 = match nginx_if_rule(ls, i + 1) {
                            Some(r) => NginxModel {
                                acc: AccModel {
                                    rewrite_rules: before.acc.rewrite_rules.push(
                                        RuleView { conditions: seq![cv], ..r },
                                    ),
                                    ..before.acc
                                },
                                ..before
                            },
                            None => before,
                        };
                        assert(st@ == st2);
                        assert(nginx_run(before, ls, i as int) == nginx_run(st2, ls, k + 1));
                    }
                    i = if k < ranges.len() { k + 1 } else { ranges.len() };
                },
                None => {
                    i += 1;
                },
            }
        }
    }
    build_config(st.acc)
}

} // verus!
