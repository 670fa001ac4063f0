//! Reverse-proxy addressing: where a request is forwarded and with which
//! path.
//!
//! The HTTP exchange with the upstream is made by the program around the
//! library.

use vstd::prelude::*;
use crate::tenant_router::{strip_path_prefix, strip_path_prefix_spec};
use crate::text::{chars_of, contains, push_char, push_str, str_contains, substring, trim_end_char, trim_end_char_range};

verus! {

/// The application-server upstream of the `OPEN_WEB_SERVER_APP_UPSTREAM`
/// setting: the value with trailing `/`s dropped, unless nothing remains.
pub open spec fn app_upstream_spec(setting: Option<Seq<char>>) -> Option<Seq<char>> {
    match setting {
        Some(v) => {
            let t = trim_end_char(v, '/');
            if t.len() == 0 {
                None
            } else {
                Some(t)
            }
        },
        None => None,
    }
}

/// Reads the application-server upstream that requests no site claims
/// are forwarded to; `None` when it is unset or empty.
pub fn app_upstream_base(setting: Option<&str>) -> (r: Option<String>)
    ensures
        match app_upstream_spec(
            match setting {
                Some(v) => Some(v@),
                None => None,
            },
        ) {
            Some(t) => r matches Some(u) && u@ == t,
            None => r is None,
        },
{
    match setting {
        Some(v) => {
            let c = chars_of(v);
            proof {
                assert(c@.subrange(0, c@.len() as int) =~= c@);
            }
            let b = trim_end_char_range(&c, 0, c.len(), '/');
            if b == 0 {
                None
            } else {
                Some(substring(&c, 0, b))
            }
        },
        None => None,
    }
}

/// The upstream base URL of a backend address: trailing `/`s dropped,
/// and `http://` prepended when the address has no scheme.
pub open spec fn base_url_spec(base_addr: Seq<char>) -> Seq<char> {
    let b = trim_end_char(base_addr, '/');
    if contains(b, "://"@) {
        b
    } else {
        "http://"@ + b
    }
}

/// Builds the upstream base URL.
pub fn upstream_base_url(base_addr: &str) -> (r: String)
    ensures
        r@ == base_url_spec(base_addr@),
{
    let v = chars_of(base_addr);
    proof {
        assert(v@.subrange(0, v@.len() as int) =~= v@);
    }
    let end = trim_end_char_range(&v, 0, v.len(), '/');
    let b = substring(&v, 0, end);
    if str_contains(b.as_str(), "://") {
        b
    } else {
        let mut r = String::new();
        push_str(&mut r, "http://");
        push_str(&mut r, b.as_str());
        r
    }
}

/// The path and query forwarded upstream: with a non-empty prefix to strip,
/// the stripped path and the query (if any) after `?`; otherwise the
/// request's own path and query.
pub open spec fn forwarded_path_spec(
    path_and_query: Seq<char>,
    path: Seq<char>,
    query: Option<Seq<char>>,
    strip: Option<Seq<char>>,
) -> Seq<char> {
    match strip {
        Some(p) => if p.len() > 0 {
            let np = strip_path_prefix_spec(path, p);
            match query {
                Some(q) => np + seq!['?'] + q,
                None => np,
            }
        } else {
            path_and_query
        },
        None => path_and_query,
    }
}

/// Builds the forwarded path and query.
pub fn forwarded_path_and_query(
    path_and_query: &str,
    path: &str,
    query: Option<&str>,
    strip: Option<&str>,
) -> (r: String)
    ensures
        r@ == forwarded_path_spec(
            path_and_query@,
            path@,
            match query {
                Some(q) => Some(q@),
                None => None,
            },
            match strip {
                Some(p) => Some(p@),
                None => None,
            },
        ),
{
    match strip {
        Some(p) => {
            if p.unicode_len() > 0 {
                let mut np = strip_path_prefix(path, p);
                match query {
                    Some(q) => {
                        push_char(&mut np, '?');
                        push_str(&mut np, q);
                    },
                    None => {},
                }
                return np;
            }
            path_and_query.to_owned()
        },
        None => path_and_query.to_owned(),
    }
}

/// The full upstream URL: base URL then forwarded path and query.
pub fn upstream_url(
    base_addr: &str,
    path_and_query: &str,
    path: &str,
    query: Option<&str>,
    strip: Option<&str>,
) -> (r: String)
    ensures
        r@ == base_url_spec(base_addr@) + forwarded_path_spec(
            path_and_query@,
            path@,
            match query {
                Some(q) => Some(q@),
                None => None,
            },
            match strip {
                Some(p) => Some(p@),
                None => None,
            },
        ),
{
    let mut r = upstream_base_url(base_addr);
    let pq = forwarded_path_and_query(path_and_query, path, query, strip);
    push_str(&mut r, pq.as_str());
    r
}

/// Whether a failed forward is tried once more: only when the connection
/// itself could not be made, and only on the first attempt (a request that
/// reached the upstream is never sent twice).
pub fn retry_forward(is_connect_failure: bool, attempts_made: u32) -> (b: bool)
    ensures
        b == (is_connect_failure && attempts_made == 1),
{
    is_connect_failure && attempts_made == 1
}

} // verus!
