//! Cross-origin resource sharing for the browser-facing API: which origins
//! are allowed, which requests are preflights, and the headers added.

use vstd::prelude::*;
use crate::ip_allowlist::{allowlist_spec, parse_list_setting};
use crate::text::{push_str, str_eq};

verus! {

/// The allowed origins of a raw setting (comma-separated, trimmed, blanks
/// dropped); `None` (the feature is off) when none is left.
pub fn allowed_origins(raw: Option<&str>) -> (r: Option<Vec<String>>)
    ensures
        match raw {
            None => r is None,
            Some(s) => match r {
                Some(v) => v@.map_values(|x: String| x@) == allowlist_spec(s@) && v@.len() > 0,
                None => allowlist_spec(s@).len() == 0,
            },
        },
{
    match raw {
        None => None,
        Some(s) => parse_list_setting(s),
    }
}

/// Whether CORS is on: some origin is configured.
pub fn is_enabled(raw: Option<&str>) -> (b: bool)
    ensures
        b == match raw {
            None => false,
            Some(s) => allowlist_spec(s@).len() > 0,
        },
{
    allowed_origins(raw).is_some()
}

/// The allowed origin equal to the request's `Origin`, if any.
pub fn matched_origin(origins: &[String], origin: &str) -> (r: Option<String>)
    ensures
        match r {
            Some(o) => o@ == origin@ && exists|i: int| 0 <= i < origins@.len() && (#[trigger] origins@[i])@ == origin@,
            None => forall|i: int| 0 <= i < origins@.len() ==> (#[trigger] origins@[i])@ != origin@,
        },
{
    let mut i: usize = 0;
    while i < origins.len()
        invariant
            i <= origins@.len(),
            forall|k: int| 0 <= k < i ==> (#[trigger] origins@[k])@ != origin@,
        decreases origins.len() - i,
    {
        if str_eq(origins[i].as_str(), origin) {
            return Some(origins[i].clone());
        }
        i += 1;
    }
    None
}

/// Whether a request is a CORS preflight: an `OPTIONS` request carrying
/// `Access-Control-Request-Method` (a plain `OPTIONS` is not).
pub fn is_preflight(method_is_options: bool, has_request_method_header: bool) -> (b: bool)
    ensures
        b == (method_is_options && has_request_method_header),
{
    method_is_options && has_request_method_header
}

/// The header names and values added for an allowed origin.
pub open spec fn cors_headers_spec(origin: Seq<char>) -> Seq<(Seq<char>, Seq<char>)> {
    seq![
        ("access-control-allow-origin"@, origin),
        ("access-control-allow-methods"@, "GET, POST, PUT, DELETE, OPTIONS"@),
        ("access-control-allow-headers"@, "content-type, x-admin-token, authorization, idempotency-key"@),
        ("vary"@, "origin"@),
    ]
}

fn owned_str(s: &str) -> (r: String)
    ensures
        r@ == s@,
{
    let mut r = String::new();
    push_str(&mut r, s);
    r
}

/// The CORS headers for an allowed origin, in the order they are set.
pub fn cors_headers(origin: &str) -> (r: Vec<(String, String)>)
    ensures
        r@.len() == 4,
        forall|i: int|
            0 <= i < 4 ==> (#[trigger] r@[i]).0@ == cors_headers_spec(origin@)[i].0 && r@[i].1@
                == cors_headers_spec(origin@)[i].1,
{
    let mut r: Vec<(String, String)> = Vec::new();
    r.push((owned_str("access-control-allow-origin"), owned_str(origin)));
    r.push((owned_str("access-control-allow-methods"), owned_str("GET, POST, PUT, DELETE, OPTIONS")));
    r.push(
        (
            owned_str("access-control-allow-headers"),
            owned_str("content-type, x-admin-token, authorization, idempotency-key"),
        ),
    );
    r.push((owned_str("vary"), owned_str("origin")));
    r
}

/// Status of the answer to an allowed preflight (204 No Content).
pub const PREFLIGHT_STATUS: u16 = 204;

/// The origin matched for a request under a raw setting: CORS on, an
/// `Origin` given and allowed.
pub open spec fn matched_origin_spec(setting: Option<Seq<char>>, origin: Option<Seq<char>>) -> Option<
    Seq<char>,
> {
    match (setting, origin) {
        (Some(s), Some(o)) => if allowlist_spec(s).contains(o) {
            Some(o)
        } else {
            None
        },
        _ => None,
    }
}

fn match_request_origin(setting: Option<&str>, origin: Option<&str>) -> (r: Option<String>)
    ensures
        match r {
            Some(m) => matched_origin_spec(
                match setting {
                    Some(s) => Some(s@),
                    None => None,
                },
                match origin {
                    Some(o) => Some(o@),
                    None => None,
                },
            ) == Some(m@),
            None => matched_origin_spec(
                match setting {
                    Some(s) => Some(s@),
                    None => None,
                },
                match origin {
                    Some(o) => Some(o@),
                    None => None,
                },
            ) is None,
        },
{
    let origins = match allowed_origins(setting) {
        Some(v) => v,
        None => return None,
    };
    let o = match origin {
        Some(o) => o,
        None => return None,
    };
    let ghost ov = origins@.map_values(|x: String| x@);
    let r = matched_origin(origins.as_slice(), o);
    proof {
        match r {
            Some(_) => {
                let i = choose|i: int| 0 <= i < origins@.len() && (#[trigger] origins@[i])@ == o@;
                assert(ov[i] == o@);
            },
            None => {
                assert forall|i: int| 0 <= i < ov.len() implies ov[i] != o@ by {
                    assert(ov[i] == origins@[i]@);
                }
            },
        }
    }
    r
}

/// The headers answering a preflight (with `PREFLIGHT_STATUS`), or `None`
/// when the request is not a preflight or its origin is not allowed; the
/// caller then goes on with normal dispatch.
pub fn preflight_response_headers(
    setting: Option<&str>,
    method_is_options: bool,
    has_request_method_header: bool,
    origin: Option<&str>,
) -> (r: Option<Vec<(String, String)>>)
    ensures
        ({
            let m = matched_origin_spec(
                match setting {
                    Some(s) => Some(s@),
                    None => None,
                },
                match origin {
                    Some(o) => Some(o@),
                    None => None,
                },
            );
            &&& !(method_is_options && has_request_method_header) ==> r is None
            &&& method_is_options && has_request_method_header ==> match m {
                None => r is None,
                Some(o) => r matches Some(h) && h@.len() == 4 && forall|i: int|
                    0 <= i < 4 ==> (#[trigger] h@[i]).0@ == cors_headers_spec(o)[i].0 && h@[i].1@
                        == cors_headers_spec(o)[i].1,
            }
        }),
{
    if !is_preflight(method_is_options, has_request_method_header) {
        return None;
    }
    match match_request_origin(setting, origin) {
        Some(o) => Some(cors_headers(o.as_str())),
        None => None,
    }
}

/// The headers added to a normal response: the CORS headers when the
/// request's origin is allowed, none otherwise.
pub fn response_headers(setting: Option<&str>, origin: Option<&str>) -> (r: Vec<(String, String)>)
    ensures
        match matched_origin_spec(
            match setting {
                Some(s) => Some(s@),
                None => None,
            },
            match origin {
                Some(o) => Some(o@),
                None => None,
            },
        ) {
            None => r@.len() == 0,
            Some(o) => r@.len() == 4 && forall|i: int|
                0 <= i < 4 ==> (#[trigger] r@[i]).0@ == cors_headers_spec(o)[i].0 && r@[i].1@
                    == cors_headers_spec(o)[i].1,
        },
{
    match match_request_origin(setting, origin) {
        Some(o) => cors_headers(o.as_str()),
        None => Vec::new(),
    }
}

} // verus!
