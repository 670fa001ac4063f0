use open_web_server::proxy::{app_upstream_base, forwarded_path_and_query, retry_forward, upstream_base_url, upstream_url};

#[test]
fn retries_once_and_recovers_from_a_transient_connect_failure() {
    assert!(retry_forward(true, 1));
    assert!(!retry_forward(true, 2));
}

#[test]
fn does_not_retry_after_reaching_the_server_even_on_error_status() {
    assert!(!retry_forward(false, 1));
}

#[test]
fn upstream_addresses_get_a_scheme_and_lose_trailing_slashes() {
    assert_eq!(upstream_base_url("127.0.0.1:9001"), "http://127.0.0.1:9001");
    assert_eq!(upstream_base_url("https://backend.internal/"), "https://backend.internal");
}

#[test]
fn prefix_is_stripped_and_query_kept() {
    assert_eq!(forwarded_path_and_query("/blog/posts?page=2", "/blog/posts", Some("page=2"), Some("/blog")), "/posts?page=2");
    assert_eq!(forwarded_path_and_query("/blog", "/blog", None, Some("/blog")), "/");
    assert_eq!(forwarded_path_and_query("/x?y=1", "/x", Some("y=1"), None), "/x?y=1");
    assert_eq!(forwarded_path_and_query("/x?y=1", "/x", Some("y=1"), Some("")), "/x?y=1");
    assert_eq!(
        upstream_url("127.0.0.1:8101", "/blog/a", "/blog/a", None, Some("/blog")),
        "http://127.0.0.1:8101/a"
    );
}

#[test]
fn app_upstream_base_trims_trailing_slashes_and_ignores_empty() {
    assert_eq!(app_upstream_base(Some("http://127.0.0.1:8080/")), Some("http://127.0.0.1:8080".to_string()));
    assert_eq!(app_upstream_base(Some("http://app:9000//")), Some("http://app:9000".to_string()));
    assert_eq!(app_upstream_base(Some("app:9000")), Some("app:9000".to_string()));
    assert_eq!(app_upstream_base(Some("///")), None);
    assert_eq!(app_upstream_base(Some("")), None);
    assert_eq!(app_upstream_base(None), None);
}
