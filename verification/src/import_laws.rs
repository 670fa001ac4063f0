//! Laws of the Apache configuration import: which directives name the
//! site, and what a complete set of directives builds.

use vstd::prelude::*;
use crate::config_import::{
    acc_init, apache_fold, apache_step, build_spec, nginx_variable, parse_apache_spec, strip_directive, unquote,
    AccModel, ApacheModel, ImportError,
};
use crate::text::{lines, trim};
use crate::web_vhost::{CompatMode, PhpModeView, TlsCertView, VhostView};

verus! {

/// The rest of the first line of `ls` that, trimmed, is the directive `d`
/// followed by whitespace.
pub open spec fn first_directive(ls: Seq<Seq<char>>, d: Seq<char>) -> Option<Seq<char>>
    decreases ls.len(),
{
    if ls.len() == 0 {
        None
    } else {
        match strip_directive(trim(ls[0]), d) {
            Some(r) => Some(r),
            None => first_directive(ls.drop_first(), d),
        }
    }
}

proof fn lemma_server_name_not_docroot(line: Seq<char>)
    ensures
        strip_directive(line, "ServerName"@) is Some ==> strip_directive(line, "DocumentRoot"@) is None,
{
    reveal_strlit("ServerName");
    reveal_strlit("DocumentRoot");
    if strip_directive(line, "ServerName"@) is Some && strip_directive(line, "DocumentRoot"@) is Some {
        assert(line.subrange(0, 10)[0] == line[0]);
        assert(line.subrange(0, 12)[0] == line[0]);
        assert("ServerName"@[0] != "DocumentRoot"@[0]);
    }
}

proof fn lemma_apache_fold_host_docroot(st: ApacheModel, ls: Seq<Seq<char>>)
    ensures
        apache_fold(st, ls).acc.host == match st.acc.host {
            Some(h) => Some(h),
            None => first_directive(ls, "ServerName"@),
        },
        apache_fold(st, ls).acc.docroot == match st.acc.docroot {
            Some(d) => Some(d),
            None => match first_directive(ls, "DocumentRoot"@) {
                Some(r) => Some(unquote(r)),
                None => None,
            },
        },
    decreases ls.len(),
{
    if ls.len() > 0 {
        let next = apache_step(st, ls[0]);
        lemma_server_name_not_docroot(trim(ls[0]));
        lemma_apache_fold_host_docroot(next, ls.drop_first());
    }
}

/// An Apache block names its site by its first `ServerName` and its
/// document root by its first `DocumentRoot` (unquoted); without a
/// `ServerName` the import fails with `MissingHost`, and with one but
/// without a `DocumentRoot` with `MissingDocroot`. An imported site
/// answers missing files with a plain 404 (`CompatMode::Nginx`).
pub proof fn law_apache_first_server_name_and_docroot(conf: Seq<char>)
    ensures
        ({
            let ls = lines(conf);
            let sn = first_directive(ls, "ServerName"@);
            let dr = first_directive(ls, "DocumentRoot"@);
            &&& sn is None ==> parse_apache_spec(conf) == Err::<VhostView, ImportError>(ImportError::MissingHost)
            &&& sn is Some && dr is None ==> parse_apache_spec(conf) == Err::<VhostView, ImportError>(
                ImportError::MissingDocroot,
            )
            &&& (sn is Some && dr is Some) ==> (parse_apache_spec(conf) matches Ok(v) && v.host
                == sn.unwrap() && v.docroot == unquote(dr.unwrap()) && v.compat_mode == CompatMode::Nginx)
        }),
{
    let st0 = ApacheModel { acc: acc_init(), pending: seq![], auth_name: None };
    let ls = lines(conf);
    lemma_apache_fold_host_docroot(st0, ls);
}

/// With a host and a document root read, the site's settings are exactly
/// those read: PHP through FastCGI when a FastCGI address was read, a TLS
/// certificate with its key when a certificate was read, and access
/// control exactly when some `Allow` or `Deny` was read.
pub proof fn law_build_uses_what_was_read(acc: AccModel)
    requires
        acc.host is Some,
        acc.docroot is Some,
    ensures
        build_spec(acc) matches Ok(v) && v.host == acc.host.unwrap() && v.docroot == acc.docroot.unwrap()
            && v.php_enabled == (acc.fastcgi_addr is Some) && v.php_mode == (match acc.fastcgi_addr {
            Some(a) => PhpModeView::FastCgi(a),
            None => PhpModeView::BuiltinServer,
        }) && v.tls_cert == (match acc.tls_cert_path {
            Some(c) => Some(TlsCertView { cert_path: c, key_path: acc.tls_key_path }),
            None => None,
        }) && (v.access_control is None <==> (acc.allow.len() == 0 && acc.deny.len() == 0))
            && v.rewrite_rules == acc.rewrite_rules && v.basic_auth == acc.basic_auth,
{
}


/// The nginx variables a condition can test, by name: `$http_host` is
/// the host (`HTTP_HOST`), `$request_method` the method
/// (`REQUEST_METHOD`), and both `$query_string` and `$args` the query
/// string (`QUERY_STRING`); no other name is read.
pub proof fn law_nginx_variable_names(name: Seq<char>)
    ensures
        name == "$http_host"@ ==> nginx_variable(name) == Some("HTTP_HOST"@),
        name == "$request_method"@ ==> nginx_variable(name) == Some("REQUEST_METHOD"@),
        name == "$query_string"@ ==> nginx_variable(name) == Some("QUERY_STRING"@),
        name == "$args"@ ==> nginx_variable(name) == Some("QUERY_STRING"@),
        name != "$http_host"@ && name != "$request_method"@ && name != "$query_string"@ && name
            != "$args"@ ==> nginx_variable(name) is None,
{
    reveal_strlit("$http_host");
    reveal_strlit("$request_method");
    reveal_strlit("$query_string");
    reveal_strlit("$args");
    reveal_strlit("HTTP_HOST");
    reveal_strlit("REQUEST_METHOD");
    reveal_strlit("QUERY_STRING");
    assert("$http_host"@.len() == 10);
    assert("$request_method"@.len() == 15);
    assert("$query_string"@.len() == 13);
    assert("$args"@.len() == 5);
    assert("HTTP_HOST"@.len() == 9);
    assert("REQUEST_METHOD"@.len() == 14);
    assert("QUERY_STRING"@.len() == 12);
}

} // verus!
