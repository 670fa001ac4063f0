use std::path::PathBuf;

use open_web_server::config_import::{parse_apache_vhost, parse_nginx_server, ImportError};
use open_web_server::rewrite::{apply_with_context, RewriteContext, RewriteOutcome};
use open_web_server::web_vhost::PhpMode;

const APACHE_SAMPLE: &str = r#"
<VirtualHost *:80>
ServerName example.com
ServerAlias www.example.com
DocumentRoot "/var/www/example"
<FilesMatch \.php$>
    SetHandler "proxy:fcgi://127.0.0.1:9000"
</FilesMatch>
</VirtualHost>
"#;

const NGINX_SAMPLE: &str = r#"
server {
listen 80;
server_name example.com www.example.com;
root /var/www/example;
location ~ \.php$ {
    fastcgi_pass 127.0.0.1:9000;
}
}
"#;

#[test]
fn parses_apache_vhost_basics() {
    let cfg = parse_apache_vhost(APACHE_SAMPLE).unwrap();
    assert_eq!(cfg.host, "example.com");
    assert_eq!(PathBuf::from(&cfg.docroot), PathBuf::from("/var/www/example"));
    assert!(cfg.php_enabled);
    assert_eq!(cfg.php_mode, PhpMode::FastCgi { fastcgi_addr: "127.0.0.1:9000".to_string() });
}

#[test]
fn parses_nginx_server_basics() {
    let cfg = parse_nginx_server(NGINX_SAMPLE).unwrap();
    assert_eq!(cfg.host, "example.com");
    assert_eq!(PathBuf::from(&cfg.docroot), PathBuf::from("/var/www/example"));
    assert!(cfg.php_enabled);
    assert_eq!(cfg.php_mode, PhpMode::FastCgi { fastcgi_addr: "127.0.0.1:9000".to_string() });
}

#[test]
fn apache_without_php_directive_yields_static_vhost() {
    let conf = r#"
<VirtualHost *:80>
ServerName static.example
DocumentRoot /var/www/static
</VirtualHost>
"#;
    let cfg = parse_apache_vhost(conf).unwrap();
    assert_eq!(cfg.host, "static.example");
    assert!(!cfg.php_enabled);
    assert_eq!(cfg.php_mode, PhpMode::default());
}

#[test]
fn nginx_without_docroot_unquoted_works() {
    let conf = "server {\n  server_name plain.example;\n  root '/srv/plain';\n}\n";
    let cfg = parse_nginx_server(conf).unwrap();
    assert_eq!(cfg.host, "plain.example");
    assert_eq!(PathBuf::from(&cfg.docroot), PathBuf::from("/srv/plain"));
}

#[test]
fn missing_host_is_a_clear_error_not_a_panic() {
    let conf = "DocumentRoot /var/www/example\n";
    assert!(matches!(parse_apache_vhost(conf), Err(ImportError::MissingHost)));
}

#[test]
fn missing_docroot_is_a_clear_error_not_a_panic() {
    let conf = "server_name example.com;\n";
    assert!(matches!(parse_nginx_server(conf), Err(ImportError::MissingDocroot)));
}

#[test]
fn nginx_takes_first_of_multiple_server_names() {
    let conf = "server {\n  server_name first.example second.example;\n  root /var/www/x;\n}\n";
    let cfg = parse_nginx_server(conf).unwrap();
    assert_eq!(cfg.host, "first.example");
}

// --- RewriteCond + RewriteRule (Apache) ---------------------------

#[test]
fn apache_rewrite_cond_and_rule_are_paired() {
    let conf = r#"
<VirtualHost *:80>
ServerName example.com
DocumentRoot /var/www/example
RewriteCond %{HTTP_HOST} ^m\.example\.com$
RewriteRule ^/(.*)$ /mobile/$1 [L]
</VirtualHost>
"#;
    let cfg = parse_apache_vhost(conf).unwrap();
    assert_eq!(cfg.rewrite_rules.len(), 1);
    let rule = &cfg.rewrite_rules[0];
    assert_eq!(rule.conditions.len(), 1);
    assert_eq!(rule.conditions[0].variable, "HTTP_HOST");
    assert!(!rule.redirect);

    let ctx_match = RewriteContext { http_host: Some("m.example.com"), ..Default::default() };
    assert_eq!(
        apply_with_context("/page", &cfg.rewrite_rules, &ctx_match),
        RewriteOutcome::Rewritten("/mobile/page".to_string())
    );
}

#[test]
fn apache_rewrite_rule_with_redirect_flag_is_external_redirect() {
    let conf = r#"
<VirtualHost *:80>
ServerName example.com
DocumentRoot /var/www/example
RewriteRule ^/old$ /new [R=301,L]
</VirtualHost>
"#;
    let cfg = parse_apache_vhost(conf).unwrap();
    assert_eq!(cfg.rewrite_rules.len(), 1);
    assert!(cfg.rewrite_rules[0].redirect);
    assert!(cfg.rewrite_rules[0].conditions.is_empty());
}

// --- if-block return/rewrite (Nginx) -------------------------------

#[test]
fn nginx_if_block_with_return_becomes_conditional_redirect_rule() {
    let conf = r#"
server {
server_name example.com;
root /var/www/example;
if ($http_host ~ ^m\.example\.com$) {
    return 301 https://m.example.com/mobile;
}
}
"#;
    let cfg = parse_nginx_server(conf).unwrap();
    assert_eq!(cfg.rewrite_rules.len(), 1);
    let rule = &cfg.rewrite_rules[0];
    assert!(rule.redirect);
    assert_eq!(rule.conditions.len(), 1);
    assert_eq!(rule.conditions[0].variable, "HTTP_HOST");
}

#[test]
fn nginx_if_block_with_rewrite_becomes_conditional_internal_rewrite() {
    let conf = r#"
server {
server_name example.com;
root /var/www/example;
if ($request_method = POST) {
    rewrite ^/submit$ /handle-submit last;
}
}
"#;
    // `$request_method = POST`(正規表現ではなく`=`比較)は今回のスコープ
    // 外の構文のため、この`if`は無視され通常のvhostとしてパースされる
    // ことを確認する(黙って壊れるのではなく、単に条件が付かない)。
    let cfg = parse_nginx_server(conf).unwrap();
    assert!(cfg.rewrite_rules.is_empty());
}

#[test]
fn nginx_if_block_with_tilde_request_method_condition_works() {
    let conf = r#"
server {
server_name example.com;
root /var/www/example;
if ($request_method ~ ^POST$) {
    rewrite ^/submit$ /handle-submit last;
}
}
"#;
    let cfg = parse_nginx_server(conf).unwrap();
    assert_eq!(cfg.rewrite_rules.len(), 1);
    assert_eq!(cfg.rewrite_rules[0].conditions[0].variable, "REQUEST_METHOD");
    assert!(!cfg.rewrite_rules[0].redirect);
}

// --- Basic auth ------------------------------------------------------

#[test]
fn apache_basic_auth_is_parsed() {
    let conf = r#"
<VirtualHost *:80>
ServerName example.com
DocumentRoot /var/www/example
AuthType Basic
AuthName "Restricted Area"
AuthUserFile /etc/apache2/.htpasswd
</VirtualHost>
"#;
    let cfg = parse_apache_vhost(conf).unwrap();
    let auth = cfg.basic_auth.expect("basic_auth should be set");
    assert_eq!(auth.realm, "Restricted Area");
    assert_eq!(PathBuf::from(&auth.user_file), PathBuf::from("/etc/apache2/.htpasswd"));
}

#[test]
fn apache_digest_auth_is_skipped_not_treated_as_basic() {
    let conf = r#"
<VirtualHost *:80>
ServerName example.com
DocumentRoot /var/www/example
AuthType Digest
AuthName "Restricted Area"
AuthUserFile /etc/apache2/.htdigest
</VirtualHost>
"#;
    let cfg = parse_apache_vhost(conf).unwrap();
    assert!(cfg.basic_auth.is_none());
}

#[test]
fn nginx_basic_auth_is_parsed() {
    let conf = r#"
server {
server_name example.com;
root /var/www/example;
auth_basic "Restricted Area";
auth_basic_user_file /etc/nginx/.htpasswd;
}
"#;
    let cfg = parse_nginx_server(conf).unwrap();
    let auth = cfg.basic_auth.expect("basic_auth should be set");
    assert_eq!(auth.realm, "Restricted Area");
    assert_eq!(PathBuf::from(&auth.user_file), PathBuf::from("/etc/nginx/.htpasswd"));
}

#[test]
fn nginx_auth_basic_off_does_not_set_basic_auth() {
    let conf = r#"
server {
server_name example.com;
root /var/www/example;
auth_basic off;
}
"#;
    let cfg = parse_nginx_server(conf).unwrap();
    assert!(cfg.basic_auth.is_none());
}

// --- TLS certificate paths -------------------------------------------

#[test]
fn apache_ssl_certificate_paths_are_parsed() {
    let conf = r#"
<VirtualHost *:443>
ServerName secure.example.com
DocumentRoot /var/www/secure
SSLCertificateFile /etc/ssl/certs/secure.example.com.crt
SSLCertificateKeyFile /etc/ssl/private/secure.example.com.key
</VirtualHost>
"#;
    let cfg = parse_apache_vhost(conf).unwrap();
    let tls = cfg.tls_cert.expect("tls_cert should be set");
    assert_eq!(PathBuf::from(&tls.cert_path), PathBuf::from("/etc/ssl/certs/secure.example.com.crt"));
    assert_eq!(tls.key_path.map(PathBuf::from), Some(PathBuf::from("/etc/ssl/private/secure.example.com.key")));
}

#[test]
fn nginx_ssl_certificate_paths_are_parsed() {
    let conf = r#"
server {
server_name secure.example.com;
root /var/www/secure;
ssl_certificate /etc/nginx/ssl/secure.example.com.crt;
ssl_certificate_key /etc/nginx/ssl/secure.example.com.key;
}
"#;
    let cfg = parse_nginx_server(conf).unwrap();
    let tls = cfg.tls_cert.expect("tls_cert should be set");
    assert_eq!(PathBuf::from(&tls.cert_path), PathBuf::from("/etc/nginx/ssl/secure.example.com.crt"));
    assert_eq!(tls.key_path.map(PathBuf::from), Some(PathBuf::from("/etc/nginx/ssl/secure.example.com.key")));
}

#[test]
fn cert_without_key_directive_still_recorded_honestly() {
    let conf = r#"
<VirtualHost *:443>
ServerName secure.example.com
DocumentRoot /var/www/secure
SSLCertificateFile /etc/ssl/certs/secure.example.com.crt
</VirtualHost>
"#;
    let cfg = parse_apache_vhost(conf).unwrap();
    let tls = cfg.tls_cert.expect("tls_cert should be set");
    assert_eq!(tls.key_path, None);
}

// --- basic IP allow/deny --------------------------------------------

#[test]
fn apache_allow_deny_from_directory_block_is_parsed() {
    let conf = r#"
<VirtualHost *:80>
ServerName example.com
DocumentRoot /var/www/example
<Directory /var/www/example/admin>
    Allow from 192.168.1.0/24
    Deny from 10.0.0.5
</Directory>
</VirtualHost>
"#;
    let cfg = parse_apache_vhost(conf).unwrap();
    let ac = cfg.access_control.expect("access_control should be set");
    assert_eq!(ac.allow, vec!["192.168.1.0/24".to_string()]);
    assert_eq!(ac.deny, vec!["10.0.0.5".to_string()]);
}

#[test]
fn nginx_allow_deny_is_parsed() {
    let conf = r#"
server {
server_name example.com;
root /var/www/example;
allow 192.168.1.0/24;
deny all;
}
"#;
    let cfg = parse_nginx_server(conf).unwrap();
    let ac = cfg.access_control.expect("access_control should be set");
    assert_eq!(ac.allow, vec!["192.168.1.0/24".to_string()]);
    assert_eq!(ac.deny, vec!["all".to_string()]);
}

#[test]
fn no_access_control_directives_yields_none() {
    let cfg = parse_apache_vhost(APACHE_SAMPLE).unwrap();
    assert!(cfg.access_control.is_none());
}

#[test]
fn apache_import_uses_first_server_name_and_document_root() {
    let conf = "<VirtualHost *:80>\n  ServerName first.example\n  ServerName second.example\n  DocumentRoot \"/srv/first\"\n  DocumentRoot /srv/second\n</VirtualHost>\n";
    let cfg = open_web_server::config_import::parse_apache_vhost(conf).unwrap();
    assert_eq!(cfg.host, "first.example");
    assert_eq!(cfg.docroot, "/srv/first");
    assert_eq!(cfg.compat_mode, open_web_server::web_vhost::CompatMode::Nginx);
}
