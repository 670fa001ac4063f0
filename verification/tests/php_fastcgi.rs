use open_web_server::php_fastcgi::{
    cgi_header_name, fastcgi_addr_is_tcp, parse_cgi_output, passes_as_http_variable, script_filename, script_name,
    CgiResponse,
};

fn header<'a>(resp: &'a CgiResponse, name: &str) -> Option<&'a str> {
    resp.headers.iter().find(|(n, _)| n.eq_ignore_ascii_case(name)).map(|(_, v)| v.as_str())
}

#[test]
fn parses_status_header_and_body() {
    let raw = b"Status: 404 Not Found\r\nContent-Type: text/plain\r\n\r\nnot found here";
    let resp = parse_cgi_output(raw);
    assert_eq!(resp.status, 404);
    assert_eq!(header(&resp, "content-type"), Some("text/plain"));
    assert_eq!(resp.body, b"not found here".to_vec());
}

#[test]
fn defaults_to_200_without_status_header() {
    let raw = b"Content-Type: text/html\r\n\r\n<html>ok</html>";
    let resp = parse_cgi_output(raw);
    assert_eq!(resp.status, 200);
}

#[test]
fn handles_lf_only_separator() {
    let raw = b"Content-Type: text/plain\n\nbody-with-lf-only";
    let resp = parse_cgi_output(raw);
    assert_eq!(resp.status, 200);
    assert_eq!(header(&resp, "content-type"), Some("text/plain"));
    assert_eq!(resp.body, b"body-with-lf-only".to_vec());
}

#[test]
fn handles_missing_separator_as_body_only() {
    let raw = b"just a raw body with no headers";
    let resp = parse_cgi_output(raw);
    assert_eq!(resp.status, 200);
    // Without a blank line the whole output is the body.
    assert_eq!(resp.body, raw.to_vec());
    assert!(resp.headers.is_empty());
}

#[test]
fn cgi_variables_for_a_request() {
    assert_eq!(script_filename("/var/www/site", "/index.php"), "/var/www/site/index.php");
    assert_eq!(script_filename("/var/www/site/", "/blog/"), "/var/www/site/blog/index.php");
    assert_eq!(script_name(""), "/");
    assert_eq!(script_name("/app.php"), "/app.php");
    assert!(fastcgi_addr_is_tcp("127.0.0.1:9000"));
    assert!(!fastcgi_addr_is_tcp("/run/php/php-fpm.sock"));
    assert_eq!(cgi_header_name("x-forwarded-for"), "HTTP_X_FORWARDED_FOR");
    assert!(passes_as_http_variable("accept"));
    assert!(!passes_as_http_variable("content-type"));
}

use open_web_server::php_fastcgi::fastcgi_vars;

#[test]
fn fastcgi_variables_of_a_request() {
    let headers = vec![
        ("host".to_string(), "site.example".to_string()),
        ("content-type".to_string(), "text/plain".to_string()),
        ("x-forwarded-for".to_string(), "203.0.113.5".to_string()),
        ("content-length".to_string(), "4".to_string()),
    ];
    let v = fastcgi_vars("POST", "/app/?a=1", "/app/", Some("a=1"), Some("site.example"), Some("text/plain"), 4, "/var/www/", &headers);
    assert_eq!(v.request_method, "POST");
    assert_eq!(v.script_name, "/app/");
    assert_eq!(v.script_filename, "/var/www/app/index.php");
    assert_eq!(v.request_uri, "/app/?a=1");
    assert_eq!(v.document_uri, "/app/");
    assert_eq!(v.query_string, "a=1");
    assert_eq!(v.server_name, "site.example");
    assert_eq!(v.content_type, "text/plain");
    assert_eq!(v.content_length, 4);
    assert_eq!(
        v.http_headers,
        vec![
            ("HTTP_HOST".to_string(), "site.example".to_string()),
            ("HTTP_X_FORWARDED_FOR".to_string(), "203.0.113.5".to_string()),
        ]
    );
    let bare = fastcgi_vars("GET", "/", "/", None, None, None, 0, "/srv", &[]);
    assert_eq!(bare.query_string, "");
    assert_eq!(bare.server_name, "localhost");
    assert_eq!(bare.content_type, "");
    assert_eq!(bare.script_filename, "/srv/index.php");
}
