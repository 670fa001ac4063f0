//! SFTP access to a site's files: where a requested path points inside the
//! served root, and how clients are told to connect.
//!
//! The SSH/SFTP server itself, and the file system checks that resolve
//! links, are run by the program around the library.

use vstd::prelude::*;
use crate::text::{
    after_first_token_range, after_last_char, chars_of, decimal_digits, first_token_range,
    line_ranges, lines, parse_u64_range, parse_u64_spec, push_str, second_token, split_char,
    split_ranges, str_eq, strip_prefix, substring, trim, trim_range, trim_start_char,
    trim_start_char_range, u64_to_decimal,
};

verus! {

// ---------------------------------------------------------------------------
// authorized_keys
// ---------------------------------------------------------------------------

/// The key blob of one `authorized_keys` line (OpenSSH form
/// `<algorithm> <base64> [comment]`): its second whitespace-separated
/// field, once trimmed; blank lines, `#` comments and lines without a
/// second field give none.
pub open spec fn authorized_key_blob(line: Seq<char>) -> Option<Seq<char>> {
    let t = trim(line);
    if t.len() == 0 || t[0] == '#' {
        None
    } else {
        second_token(t)
    }
}

/// The key blobs of `ls`, in order, skipping the lines that have none.
pub open spec fn authorized_key_blobs_of(ls: Seq<Seq<char>>) -> Seq<Seq<char>>
    decreases ls.len(),
{
    if ls.len() == 0 {
        seq![]
    } else {
        let prev = authorized_key_blobs_of(ls.drop_last());
        match authorized_key_blob(ls.last()) {
            Some(b) => prev.push(b),
            None => prev,
        }
    }
}

/// The base64 key blobs of an `authorized_keys` file, one per usable
/// line, in file order. Decoding them into keys is left to the SSH
/// library.
pub fn authorized_key_blobs(content: &str) -> (r: Vec<String>)
    ensures
        r@.map_values(|s: String| s@) == authorized_key_blobs_of(lines(content@)),
{
    let v = chars_of(content);
    let ranges = line_ranges(&v);
    let ghost ls = lines(v@);
    let mut out: Vec<String> = Vec::new();
    let mut k: usize = 0;
    while k < ranges.len()
        invariant
            k <= ranges@.len(),
            ranges@.len() == ls.len(),
            ls == lines(v@),
            v@ == content@,
            forall|j: int| 0 <= j < ranges@.len() ==> (#[trigger] ranges@[j]).0 <= ranges@[j].1 <= v@.len(),
            forall|j: int|
                0 <= j < ranges@.len() ==> v@.subrange((#[trigger] ranges@[j]).0 as int, ranges@[j].1 as int)
                    == ls[j],
            out@.map_values(|s: String| s@) == authorized_key_blobs_of(ls.take(k as int)),
        decreases ranges.len() - k,
    {
        let (lo, hi) = ranges[k];
        let ghost line = ls[k as int];
        let ghost before = out@.map_values(|s: String| s@);
        assert(v@.subrange(lo as int, hi as int) == line);
        let (a, b) = trim_range(&v, lo, hi);
        let ghost t = v@.subrange(a as int, b as int);
        assert(t == trim(line));
        if a < b && v[a] != '#' {
            assert(t[0] == v@[a as int]);
            let c = after_first_token_range(&v, a, b);
            match first_token_range(&v, c, b) {
                Some((x, y)) => {
                    let blob = substring(&v, x, y);
                    out.push(blob);
                    assert(authorized_key_blob(line) == Some(blob@));
                    assert(out@.map_values(|s: String| s@) =~= before.push(blob@));
                },
                None => {
                    assert(authorized_key_blob(line) is None);
                },
            }
        } else {
            if a < b {
                assert(t[0] == v@[a as int]);
            }
            assert(authorized_key_blob(line) is None);
        }
        proof {
            assert(ls.take(k + 1).drop_last() =~= ls.take(k as int));
            assert(ls.take(k + 1).last() == line);
        }
        k += 1;
    }
    assert(ls.take(k as int) =~= ls);
    out
}

/// The path of a request relative to the SFTP root: leading `/`s dropped;
/// `None` means the root itself.
pub open spec fn relative_request_spec(requested: Seq<char>) -> Option<Seq<char>> {
    let t = trim_start_char(requested, '/');
    if t.len() == 0 {
        None
    } else {
        Some(t)
    }
}

/// Reads a requested path relative to the SFTP root.
pub fn relative_request(requested: &str) -> (r: Option<String>)
    ensures
        match r {
            Some(t) => relative_request_spec(requested@) == Some(t@),
            None => relative_request_spec(requested@) is None,
        },
{
    let v = chars_of(requested);
    proof {
        assert(v@.subrange(0, v@.len() as int) =~= v@);
    }
    let a = trim_start_char_range(&v, 0, v.len(), '/');
    if a == v.len() {
        None
    } else {
        Some(substring(&v, a, v.len()))
    }
}

/// A registered free domain: its name and full host name.
#[derive(Debug, Clone)]
pub struct DomainEntry {
    pub domain: String,
    pub full_hostname: String,
}

/// How to connect to the SFTP server.
#[derive(Debug, Clone)]
pub struct SftpConnectionInfo {
    pub host: String,
    pub port: Option<u16>,
    pub detected_public_ip: Option<String>,
    pub example_command: Option<String>,
    pub sftp_enabled: bool,
    pub available_duckdns_domains: Vec<String>,
}

/// The port of a bind address: what follows its last `:`, as a `u16`.
pub open spec fn bind_port(bind: Seq<char>) -> Option<u16> {
    match parse_u64_spec(after_last_char(bind, ':')) {
        Some(n) => if n <= 65535 {
            Some(n as u16)
        } else {
            None
        },
        None => None,
    }
}

/// The `host=` value of a query string: the first `&`-separated field
/// that starts with `host=`, without it.
pub open spec fn query_host(fields: Seq<Seq<char>>) -> Option<Seq<char>>
    decreases fields.len(),
{
    if fields.len() == 0 {
        None
    } else {
        match strip_prefix(fields[0], "host="@) {
            Some(v) => Some(v),
            None => query_host(fields.drop_first()),
        }
    }
}

/// Index of the first domain matching the requested name (by name or full
/// host name).
pub open spec fn first_domain_match(domains: Seq<DomainEntry>, req: Seq<char>) -> Option<int>
    decreases domains.len(),
{
    if domains.len() == 0 {
        None
    } else if domains[0].domain@ == req || domains[0].full_hostname@ == req {
        Some(0)
    } else {
        match first_domain_match(domains.drop_first(), req) {
            Some(i) => Some(i + 1),
            None => None,
        }
    }
}

/// The host chosen among the registered domains: the requested one when a
/// `host=` was given (none when it matches nothing), else the first.
pub open spec fn selected_domain(domains: Seq<DomainEntry>, requested: Option<Seq<char>>) -> Option<
    Seq<char>,
> {
    match requested {
        Some(r) => match first_domain_match(domains, r) {
            Some(i) => Some(domains[i].full_hostname@),
            None => None,
        },
        None => if domains.len() > 0 {
            Some(domains[0].full_hostname@)
        } else {
            None
        },
    }
}

/// The host to connect to: the configured public host when it is not
/// blank, else the selected domain, else the detected public address.
pub open spec fn chosen_host(
    public_host: Option<Seq<char>>,
    selected: Option<Seq<char>>,
    detected: Option<Seq<char>>,
) -> Option<Seq<char>> {
    match public_host {
        Some(h) => if trim(h).len() > 0 {
            Some(h)
        } else if selected is Some {
            selected
        } else {
            detected
        },
        None => if selected is Some {
            selected
        } else {
            detected
        },
    }
}

fn find_domain(domains: &[DomainEntry], req: &str) -> (r: Option<usize>)
    ensures
        match r {
            Some(i) => first_domain_match(domains@, req@) == Some(i as int) && i < domains@.len(),
            None => first_domain_match(domains@, req@) is None,
        },
{
    let mut i: usize = 0;
    assert(domains@.skip(0) =~= domains@);
    while i < domains.len()
        invariant
            i <= domains@.len(),
            first_domain_match(domains@, req@) == match first_domain_match(
                domains@.skip(i as int),
                req@,
            ) {
                Some(j) => Some(j + i),
                None => None,
            },
        decreases domains.len() - i,
    {
        let ghost rest = domains@.skip(i as int);
        assert(rest[0] == domains@[i as int]);
        assert(rest.drop_first() =~= domains@.skip(i + 1));
        if str_eq(domains[i].domain.as_str(), req) || str_eq(domains[i].full_hostname.as_str(), req) {
            return Some(i);
        }
        i += 1;
    }
    None
}

fn find_query_host(q: &str) -> (r: Option<String>)
    ensures
        match r {
            Some(h) => query_host(split_char(q@, '&')) == Some(h@),
            None => query_host(split_char(q@, '&')) is None,
        },
{
    let v = chars_of(q);
    let fields = split_ranges(&v, '&');
    let ghost fs = split_char(v@, '&');
    let mut k: usize = 0;
    assert(fs.skip(0) =~= fs);
    while k < fields.len()
        invariant
            k <= fields@.len(),
            fields@.len() == fs.len(),
            fs == split_char(q@, '&'),
            v@ == q@,
            forall|j: int| 0 <= j < fields@.len() ==> (#[trigger] fields@[j]).0 <= fields@[j].1 <= v@.len(),
            forall|j: int|
                0 <= j < fields@.len() ==> v@.subrange((#[trigger] fields@[j]).0 as int, fields@[j].1 as int)
                    == fs[j],
            query_host(fs) == query_host(fs.skip(k as int)),
        decreases fields.len() - k,
    {
        let (lo, hi) = fields[k];
        let f = substring(&v, lo, hi);
        proof {
            let rest = fs.skip(k as int);
            assert(rest[0] == fs[k as int]);
            assert(rest.drop_first() =~= fs.skip(k + 1));
        }
        if crate::text::str_starts_with(f.as_str(), "host=") {
            let fv = chars_of(f.as_str());
            let n = "host=".unicode_len();
            assert(f@.skip(n as int) =~= fv@.subrange(n as int, fv@.len() as int));
            return Some(substring(&fv, n, fv.len()));
        }
        k += 1;
    }
    assert(fs.skip(k as int) =~= Seq::<Seq<char>>::empty());
    None
}

/// Connection details for SFTP clients, from the bind setting, the public
/// host setting, the registered free domains, the request's query string
/// and the detected public address.
pub fn connection_info(
    bind: Option<&str>,
    public_host: Option<&str>,
    domains: &[DomainEntry],
    query: Option<&str>,
    detected_public_ip: Option<String>,
) -> (r: SftpConnectionInfo)
    ensures
        r.sftp_enabled == bind is Some,
        r.port == match bind {
            Some(b) => bind_port(b@),
            None => None,
        },
        r.detected_public_ip == detected_public_ip,
        r.available_duckdns_domains@.len() == domains@.len(),
        forall|i: int|
            0 <= i < domains@.len() ==> (#[trigger] r.available_duckdns_domains@[i])@
                == domains@[i].full_hostname@,
        ({
            let requested = match query {
                Some(q) => query_host(split_char(q@, '&')),
                None => None,
            };
            let host = chosen_host(
                match public_host {
                    Some(h) => Some(h@),
                    None => None,
                },
                selected_domain(domains@, requested),
                match detected_public_ip {
                    Some(d) => Some(d@),
                    None => None,
                },
            );
            &&& r.host@ == match host {
                Some(h) => h,
                None => "(unknown - set OPEN_WEB_SERVER_SFTP_PUBLIC_HOST or check connectivity)"@,
            }
            &&& r.example_command matches Some(c) ==> host is Some && r.port is Some
            &&& match (host, r.port) {
                (Some(h), Some(p)) => r.example_command matches Some(c) && c@ == "sftp -P "@
                    + decimal_digits(p as nat) + " user@"@ + h,
                _ => r.example_command is None,
            }
        }),
{
    let port: Option<u16> = match bind {
        Some(b) => {
            let v = chars_of(b);
            proof {
                assert(v@.subrange(0, v@.len() as int) =~= v@);
            }
            let start = match crate::text::rfind_char_range(&v, 0, v.len(), ':') {
                Some(i) => i + 1,
                None => 0,
            };
            match parse_u64_range(&v, start, v.len()) {
                Some(n) => if n <= 65535 {
                    Some(n as u16)
                } else {
                    None
                },
                None => None,
            }
        },
        None => None,
    };
    let mut available: Vec<String> = Vec::new();
    let mut i: usize = 0;
    while i < domains.len()
        invariant
            i <= domains@.len(),
            available@.len() == i,
            forall|k: int|
                0 <= k < i ==> (#[trigger] available@[k])@ == domains@[k].full_hostname@,
        decreases domains.len() - i,
    {
        available.push(domains[i].full_hostname.clone());
        i += 1;
    }
    let requested: Option<String> = match query {
        Some(q) => find_query_host(q),
        None => None,
    };
    let selected: Option<String> = match &requested {
        Some(req) => match find_domain(domains, req.as_str()) {
            Some(i) => Some(domains[i].full_hostname.clone()),
            None => None,
        },
        None => if domains.len() > 0 {
            Some(domains[0].full_hostname.clone())
        } else {
            None
        },
    };
    let host: Option<String> = match public_host {
        Some(h) => {
            let hv = chars_of(h);
            proof {
                assert(hv@.subrange(0, hv@.len() as int) =~= hv@);
            }
            let (a, b) = trim_range(&hv, 0, hv.len());
            if a < b {
                Some(h.to_owned())
            } else if selected.is_some() {
                selected
            } else {
                match &detected_public_ip {
                    Some(d) => Some(d.clone()),
                    None => None,
                }
            }
        },
        None => if selected.is_some() {
            selected
        } else {
            match &detected_public_ip {
                Some(d) => Some(d.clone()),
                None => None,
            }
        },
    };
    let example_command = match (&host, port) {
        (Some(h), Some(p)) => {
            let mut c = String::new();
            push_str(&mut c, "sftp -P ");
            let d = u64_to_decimal(p as u64);
            push_str(&mut c, d.as_str());
            push_str(&mut c, " user@");
            push_str(&mut c, h.as_str());
            Some(c)
        },
        _ => None,
    };
    let host_text = match host {
        Some(h) => h,
        None => {
            let mut t = String::new();
            push_str(&mut t, "(unknown - set OPEN_WEB_SERVER_SFTP_PUBLIC_HOST or check connectivity)");
            t
        },
    };
    SftpConnectionInfo {
        host: host_text,
        port,
        detected_public_ip,
        example_command,
        sftp_enabled: bind.is_some(),
        available_duckdns_domains: available,
    }
}

} // verus!
