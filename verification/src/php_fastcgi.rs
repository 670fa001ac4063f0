//! PHP through a running php-fpm over FastCGI: the CGI parameters sent and
//! the reading of the CGI/1.1 output that comes back.
//!
//! The FastCGI connection itself is made by the program around the
//! library.

use vstd::prelude::*;
use crate::text::{
    chars_of, eq_ignore_ascii_case, eq_ignore_ascii_case_range, find_char, find_char_range,
    first_token, first_token_range, from_utf8_lossy, parse_u64_range, parse_u64_spec, push_char,
    push_str, split_char, split_ranges, str_contains, str_eq, substring, trim, trim_end_char,
    trim_end_char_range, trim_range, trim_start_char, trim_start_char_range, utf8_lossy, contains,
};

verus! {

/// The script file php-fpm runs for a request path: the document root
/// (trailing `/`s dropped), `/`, and the path without leading `/`s; a path
/// that is empty or ends with `/` gets `index.php` appended. Always joined
/// with `/`, whatever the platform, since php-fpm's file system is meant.
pub open spec fn script_filename_spec(docroot: Seq<char>, path: Seq<char>) -> Seq<char> {
    let root = trim_end_char(docroot, '/');
    let rel = trim_start_char(path, '/');
    if rel.len() == 0 || (path.len() > 0 && path.last() == '/') {
        root + seq!['/'] + rel + "index.php"@
    } else {
        root + seq!['/'] + rel
    }
}

/// `SCRIPT_FILENAME` for a request path.
pub fn script_filename(docroot: &str, path: &str) -> (r: String)
    ensures
        r@ == script_filename_spec(docroot@, path@),
{
    let d = chars_of(docroot);
    let p = chars_of(path);
    proof {
        assert(d@.subrange(0, d@.len() as int) =~= d@);
        assert(p@.subrange(0, p@.len() as int) =~= p@);
    }
    let dend = trim_end_char_range(&d, 0, d.len(), '/');
    let pstart = trim_start_char_range(&p, 0, p.len(), '/');
    let mut r = substring(&d, 0, dend);
    push_char(&mut r, '/');
    let rel = substring(&p, pstart, p.len());
    push_str(&mut r, rel.as_str());
    if pstart == p.len() || (p.len() > 0 && p[p.len() - 1] == '/') {
        push_str(&mut r, "index.php");
    }
    r
}

/// `SCRIPT_NAME` for a request path: the path, or `/` when it is empty.
pub fn script_name(path: &str) -> (r: String)
    ensures
        r@ == if path@.len() == 0 {
            seq!['/']
        } else {
            path@
        },
{
    let mut r = String::new();
    if path.unicode_len() == 0 {
        push_char(&mut r, '/');
        assert(r@ =~= seq!['/']);
    } else {
        push_str(&mut r, path);
    }
    r
}

/// Whether a FastCGI address is a TCP address (it holds `:`) rather than a
/// Unix socket path.
pub fn fastcgi_addr_is_tcp(addr: &str) -> (b: bool)
    ensures
        b == (find_char(addr@, ':') is Some),
{
    crate::text::str_has_char(addr, ':')
}

/// What `str::to_uppercase` makes of a text.
pub uninterp spec fn unicode_uppercase(s: Seq<char>) -> Seq<char>;

/// `str::to_uppercase`: the contract claims the result is the named
/// Unicode upper-casing of the argument.
#[verifier::external_body]
fn to_uppercase(s: &str) -> (r: String)
    ensures
        r@ == unicode_uppercase(s@),
{
    s.to_uppercase()
}

/// `s` with every `-` replaced by `_`.
pub open spec fn dashes_to_underscores(s: Seq<char>) -> Seq<char> {
    Seq::new(s.len(), |i: int| if s[i] == '-' { '_' } else { s[i] })
}

/// The CGI variable of an HTTP header: `HTTP_`, then the name upper-cased
/// with `-` turned into `_`.
pub fn cgi_header_name(name: &str) -> (r: String)
    ensures
        r@ == "HTTP_"@ + dashes_to_underscores(unicode_uppercase(name@)),
{
    let upper = to_uppercase(name);
    let v = chars_of(upper.as_str());
    let mut r = String::new();
    push_str(&mut r, "HTTP_");
    let ghost start = r@;
    let mut i: usize = 0;
    while i < v.len()
        invariant
            i <= v@.len(),
            v@ == unicode_uppercase(name@),
            start == "HTTP_"@,
            r@ == start + dashes_to_underscores(v@).take(i as int),
        decreases v.len() - i,
    {
        let c = if v[i] == '-' {
            '_'
        } else {
            v[i]
        };
        let ghost before = r@;
        push_char(&mut r, c);
        assert(dashes_to_underscores(v@).take(i + 1) =~= dashes_to_underscores(v@).take(
            i as int,
        ).push(c));
        assert(r@ =~= start + dashes_to_underscores(v@).take(i + 1));
        i += 1;
    }
    assert(dashes_to_underscores(v@).take(i as int) =~= dashes_to_underscores(v@));
    r
}

/// Whether a request header is passed as an `HTTP_*` variable: all but
/// `content-type` and `content-length`, which have variables of their own.
pub fn passes_as_http_variable(name: &str) -> (b: bool)
    ensures
        b == (name@ != "content-type"@ && name@ != "content-length"@),
{
    !(str_eq(name, "content-type") || str_eq(name, "content-length"))
}

/// The `HTTP_*` variables of the request headers, in order: every header
/// but `content-type` and `content-length`, under its CGI name.
pub open spec fn http_vars(headers: Seq<(Seq<char>, Seq<char>)>) -> Seq<(Seq<char>, Seq<char>)>
    decreases headers.len(),
{
    if headers.len() == 0 {
        Seq::empty()
    } else {
        let rest = http_vars(headers.drop_last());
        let (n, v) = headers.last();
        if n != "content-type"@ && n != "content-length"@ {
            rest.push(("HTTP_"@ + dashes_to_underscores(unicode_uppercase(n)), v))
        } else {
            rest
        }
    }
}

/// The CGI variables of a request handed to php-fpm.
#[derive(Debug, Clone)]
pub struct FastCgiVars {
    pub request_method: String,
    pub script_name: String,
    pub script_filename: String,
    pub request_uri: String,
    pub document_uri: String,
    pub query_string: String,
    pub server_name: String,
    pub content_type: String,
    pub content_length: usize,
    /// `HTTP_*` variables, in header order.
    pub http_headers: Vec<(String, String)>,
}

/// The CGI variables of a request: method, target, path and query (empty
/// when absent), `Host` (`localhost` when absent), `Content-Type` (empty
/// when absent), the body length, the document root, and the header
/// names (lower-case) and values.
pub fn fastcgi_vars(
    method: &str,
    request_uri: &str,
    path: &str,
    query: Option<&str>,
    host: Option<&str>,
    content_type: Option<&str>,
    body_len: usize,
    docroot: &str,
    headers: &[(String, String)],
) -> (r: FastCgiVars)
    ensures
        r.request_method@ == method@,
        r.script_name@ == (if path@.len() == 0 { seq!['/'] } else { path@ }),
        r.script_filename@ == script_filename_spec(docroot@, path@),
        r.request_uri@ == request_uri@,
        r.document_uri@ == path@,
        r.query_string@ == match query {
            Some(q) => q@,
            None => Seq::empty(),
        },
        r.server_name@ == match host {
            Some(h) => h@,
            None => "localhost"@,
        },
        r.content_type@ == match content_type {
            Some(c) => c@,
            None => Seq::empty(),
        },
        r.content_length == body_len,
        r.http_headers@.len() == http_vars(headers@.map_values(|h: (String, String)| (h.0@, h.1@))).len(),
        forall|i: int|
            0 <= i < r.http_headers@.len() ==> (#[trigger] r.http_headers@[i]).0@ == http_vars(
                headers@.map_values(|h: (String, String)| (h.0@, h.1@)),
            )[i].0 && r.http_headers@[i].1@ == http_vars(
                headers@.map_values(|h: (String, String)| (h.0@, h.1@)),
            )[i].1,
{
    let ghost hv = headers@.map_values(|h: (String, String)| (h.0@, h.1@));
    let mut http_headers: Vec<(String, String)> = Vec::new();
    let mut i: usize = 0;
    while i < headers.len()
        invariant
            i <= headers@.len(),
            hv == headers@.map_values(|h: (String, String)| (h.0@, h.1@)),
            http_headers@.len() == http_vars(hv.take(i as int)).len(),
            forall|k: int|
                0 <= k < http_headers@.len() ==> (#[trigger] http_headers@[k]).0@ == http_vars(
                    hv.take(i as int),
                )[k].0 && http_headers@[k].1@ == http_vars(hv.take(i as int))[k].1,
        decreases headers.len() - i,
    {
        proof {
            assert(hv.take(i + 1).drop_last() =~= hv.take(i as int));
            assert(hv.take(i + 1).last() == hv[i as int]);
        }
        let (name, value) = &headers[i];
        if passes_as_http_variable(name.as_str()) {
            let cgi = cgi_header_name(name.as_str());
            http_headers.push((cgi, value.clone()));
        }
        i += 1;
    }
    proof {
        assert(hv.take(i as int) =~= hv);
    }
    let query_string = match query {
        Some(q) => q.to_owned(),
        None => String::new(),
    };
    let server_name = match host {
        Some(h) => h.to_owned(),
        None => {
            let mut s = String::new();
            push_str(&mut s, "localhost");
            s
        },
    };
    let content_type = match content_type {
        Some(c) => c.to_owned(),
        None => String::new(),
    };
    FastCgiVars {
        request_method: method.to_owned(),
        script_name: script_name(path),
        script_filename: script_filename(docroot, path),
        request_uri: request_uri.to_owned(),
        document_uri: path.to_owned(),
        query_string,
        server_name,
        content_type,
        content_length: body_len,
        http_headers,
    }
}

// ---------------------------------------------------------------------------
// CGI output
// ---------------------------------------------------------------------------

/// Index of the first occurrence of `p` in `s` at or after `from`.
pub open spec fn find_bytes_from(s: Seq<u8>, p: Seq<u8>, from: int) -> Option<int>
    decreases s.len() + 1 - from,
{
    if from < 0 || from + p.len() > s.len() {
        None
    } else if s.subrange(from, from + p.len()) == p {
        Some(from)
    } else {
        find_bytes_from(s, p, from + 1)
    }
}

/// Index of the first occurrence of `p` in `s`.
pub open spec fn find_bytes(s: Seq<u8>, p: Seq<u8>) -> Option<int> {
    find_bytes_from(s, p, 0)
}

/// Header and body of CGI output: split at the first blank line
/// (`\r\n\r\n`, else `\n\n`); without one there are no headers and
/// everything is body.
pub open spec fn cgi_split(raw: Seq<u8>) -> (Seq<u8>, Seq<u8>) {
    match find_bytes(raw, seq![13u8, 10u8, 13u8, 10u8]) {
        Some(i) => (raw.subrange(0, i), raw.subrange(i + 4, raw.len() as int)),
        None => match find_bytes(raw, seq![10u8, 10u8]) {
            Some(i) => (raw.subrange(0, i), raw.subrange(i + 2, raw.len() as int)),
            None => (Seq::empty(), raw),
        },
    }
}

fn find_bytes_exec(s: &[u8], p: &[u8]) -> (r: Option<usize>)
    requires
        p@.len() > 0,
    ensures
        match r {
            Some(i) => find_bytes(s@, p@) == Some(i as int) && i + p@.len() <= s@.len(),
            None => find_bytes(s@, p@) is None,
        },
{
    let mut i: usize = 0;
    while i < s.len()
        invariant
            i <= s@.len(),
            p@.len() > 0,
            find_bytes(s@, p@) == find_bytes_from(s@, p@, i as int),
        decreases s.len() - i,
    {
        if p.len() > s.len() - i {
            return None;
        }
        let mut k: usize = 0;
        let mut same = true;
        let n = s.len();
        while k < p.len()
            invariant
                k <= p@.len(),
                n == s@.len(),
                i < n,
                i + p@.len() <= n,
                i + p@.len() <= s@.len(),
                same == (forall|j: int| 0 <= j < k ==> s@[i + j] == p@[j]),
            decreases p.len() - k,
        {
            let idx: usize = i + k;
            if s[idx] != p[k] {
                same = false;
            }
            k += 1;
        }
        if same {
            assert(s@.subrange(i as int, i + p@.len()) =~= p@);
            return Some(i);
        }
        proof {
            let j = choose|j: int| 0 <= j < p@.len() && s@[i + j] != p@[j];
            assert(s@.subrange(i as int, i + p@.len())[j] != p@[j]);
        }
        i += 1;
    }
    None
}

/// `u16::from_str`.
pub open spec fn parse_u16_spec(s: Seq<char>) -> Option<u16> {
    match parse_u64_spec(s) {
        Some(v) => if v <= 65535 {
            Some(v as u16)
        } else {
            None
        },
        None => None,
    }
}

/// The status, and headers so far, after one header line: lines without
/// `:` are skipped; a `Status:` line (any case) sets the status when its
/// first word is a code from 100 to 999; any other line is a header
/// (name and value trimmed).
pub open spec fn apply_cgi_line(
    line: Seq<char>,
    status: u16,
    headers: Seq<(Seq<char>, Seq<char>)>,
) -> (u16, Seq<(Seq<char>, Seq<char>)>) {
    let l = trim_end_char(line, '\r');
    if l.len() == 0 {
        (status, headers)
    } else {
        match find_char(l, ':') {
            None => (status, headers),
            Some(i) => {
                let name = trim(l.subrange(0, i));
                let value = trim(l.subrange(i + 1, l.len() as int));
                if eq_ignore_ascii_case(name, "status"@) {
                    match first_token(value) {
                        Some(t) => match parse_u16_spec(t) {
                            Some(c) => if 100 <= c <= 999 {
                                (c, headers)
                            } else {
                                (status, headers)
                            },
                            None => (status, headers),
                        },
                        None => (status, headers),
                    }
                } else {
                    (status, headers.push((name, value)))
                }
            },
        }
    }
}

/// Status and headers of the header lines, in order, from 200 and none.
pub open spec fn cgi_headers(lines: Seq<Seq<char>>) -> (u16, Seq<(Seq<char>, Seq<char>)>)
    decreases lines.len(),
{
    if lines.len() == 0 {
        (200, Seq::empty())
    } else {
        let prev = cgi_headers(lines.drop_last());
        apply_cgi_line(lines.last(), prev.0, prev.1)
    }
}

/// A response read from CGI output.
#[derive(Debug, Clone)]
pub struct CgiResponse {
    pub status: u16,
    pub headers: Vec<(String, String)>,
    pub body: Vec<u8>,
}

/// Reads php-fpm's CGI/1.1 output: header lines, a blank line, the body.
/// Without a `Status:` header the status is 200. Header bytes that are
/// the UTF-8 form of a text are read as that text.
pub fn parse_cgi_output(raw: &[u8]) -> (r: CgiResponse)
    ensures
        ({
            let (h, b) = cgi_split(raw@);
            let (st, hs) = cgi_headers(split_char(utf8_lossy(h), '\n'));
            &&& r.status == st
            &&& r.headers@.len() == hs.len()
            &&& forall|i: int|
                0 <= i < hs.len() ==> (#[trigger] r.headers@[i]).0@ == hs[i].0 && r.headers@[i].1@
                    == hs[i].1
            &&& r.body@ == b
        }),
        forall|t: Seq<char>|
            #[trigger] vstd::utf8::encode_utf8(t) == cgi_split(raw@).0 ==> utf8_lossy(cgi_split(raw@).0)
                == t,
{
    let crlf2: [u8; 4] = [13, 10, 13, 10];
    let lf2: [u8; 2] = [10, 10];
    proof {
        assert(crlf2@ =~= seq![13u8, 10u8, 13u8, 10u8]);
        assert(lf2@ =~= seq![10u8, 10u8]);
    }
    let (head, body) = match find_bytes_exec(raw, crlf2.as_slice()) {
        Some(i) => {
            let (a, rest) = raw.split_at(i);
            let (_, b) = rest.split_at(4);
            assert(a@ =~= raw@.subrange(0, i as int));
            assert(b@ =~= raw@.subrange(i + 4, raw@.len() as int));
            (a, b)
        },
        None => match find_bytes_exec(raw, lf2.as_slice()) {
            Some(i) => {
                let (a, rest) = raw.split_at(i);
                let (_, b) = rest.split_at(2);
                assert(a@ =~= raw@.subrange(0, i as int));
                assert(b@ =~= raw@.subrange(i + 2, raw@.len() as int));
                (a, b)
            },
            None => {
                let (a, b) = raw.split_at(0);
                assert(a@ =~= Seq::<u8>::empty());
                assert(b@ =~= raw@);
                (a, b)
            },
        },
    };
    proof {
        if let Some(i) = find_bytes(raw@, seq![13u8, 10u8, 13u8, 10u8]) {
            lemma_find_bytes_bound(raw@, seq![13u8, 10u8, 13u8, 10u8], 0);
        }
    }
    let text = from_utf8_lossy(head);
    let v = chars_of(text.as_str());
    let lines = split_ranges(&v, '\n');
    let ghost ls = split_char(v@, '\n');
    let status_word = chars_of("status");
    let mut status: u16 = 200;
    let mut headers: Vec<(String, String)> = Vec::new();
    let mut k: usize = 0;
    while k < lines.len()
        invariant
            k <= lines@.len(),
            lines@.len() == ls.len(),
            status_word@ == "status"@,
            forall|j: int| 0 <= j < lines@.len() ==> (#[trigger] lines@[j]).0 <= lines@[j].1 <= v@.len(),
            forall|j: int|
                0 <= j < lines@.len() ==> v@.subrange((#[trigger] lines@[j]).0 as int, lines@[j].1 as int)
                    == ls[j],
            ({
                let (st, hs) = cgi_headers(ls.take(k as int));
                &&& status == st
                &&& headers@.len() == hs.len()
                &&& forall|i: int|
                    0 <= i < hs.len() ==> (#[trigger] headers@[i]).0@ == hs[i].0 && headers@[i].1@
                        == hs[i].1
            }),
        decreases lines.len() - k,
    {
        let (lo, hi0) = lines[k];
        let ghost line = ls[k as int];
        proof {
            assert(ls.take(k + 1).drop_last() =~= ls.take(k as int));
            assert(ls.take(k + 1).last() == line);
        }
        let hi = trim_end_char_range(&v, lo, hi0, '\r');
        let ghost l = v@.subrange(lo as int, hi as int);
        let ghost prev = cgi_headers(ls.take(k as int));
        if lo < hi {
            match find_char_range(&v, lo, hi, ':') {
                None => {},
                Some(c) => {
                    let (na, nb) = trim_range(&v, lo, c);
                    let (va, vb) = trim_range(&v, c + 1, hi);
                    proof {
                        assert(l.subrange(0, c - lo) =~= v@.subrange(lo as int, c as int));
                        assert(l.subrange(c - lo + 1, l.len() as int) =~= v@.subrange(c + 1, hi as int));
                    }
                    if eq_ignore_ascii_case_range(&v, na, nb, &status_word) {
                        match first_token_range(&v, va, vb) {
                            Some((ta, tb)) => match parse_u64_range(&v, ta, tb) {
                                Some(code) => {
                                    if code <= 65535 && 100 <= code && code <= 999 {
                                        status = code as u16;
                                    }
                                },
                                None => {},
                            },
                            None => {},
                        }
                    } else {
                        let ghost before = headers@;
                        headers.push((substring(&v, na, nb), substring(&v, va, vb)));
                        proof {
                            let hs = prev.1.push((v@.subrange(na as int, nb as int), v@.subrange(va as int, vb as int)));
                            assert forall|i: int| 0 <= i < hs.len() implies (#[trigger] headers@[i]).0@
                                == hs[i].0 && headers@[i].1@ == hs[i].1 by {
                                if i < before.len() {
                                    assert(headers@[i] == before[i]);
                                }
                            }
                        }
                    }
                },
            }
        }
        k += 1;
    }
    assert(ls.take(k as int) =~= ls);
    let mut body_vec: Vec<u8> = Vec::new();
    let mut j: usize = 0;
    while j < body.len()
        invariant
            j <= body@.len(),
            body_vec@ == body@.take(j as int),
        decreases body.len() - j,
    {
        body_vec.push(body[j]);
        assert(body_vec@ =~= body@.take(j + 1));
        j += 1;
    }
    assert(body@.take(j as int) =~= body@);
    CgiResponse { status, headers, body: body_vec }
}

proof fn lemma_find_bytes_bound(s: Seq<u8>, p: Seq<u8>, from: int)
    ensures
        find_bytes_from(s, p, from) matches Some(i) ==> from <= i && i + p.len() <= s.len(),
    decreases s.len() + 1 - from,
{
    if !(from < 0 || from + p.len() > s.len()) && s.subrange(from, from + p.len()) != p {
        lemma_find_bytes_bound(s, p, from + 1);
    }
}

} // verus!
