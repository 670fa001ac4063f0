use open_web_server::ddns::{
    ddns_update_url, duckdns_response_ok, duckdns_settings_usable, duckdns_update_url, heartbeat_status,
    ip_changed, replace_str, template_is_usable,
};
use open_web_server::encoding::urlencoding_lite;

#[test]
fn url_template_substitution_replaces_placeholder() {
    let template = "https://example.com/update?ip={ip}&host=test";
    let expected = "https://example.com/update?ip=203.0.113.5&host=test";
    assert_eq!(ddns_update_url(template, "203.0.113.5"), expected);
}

#[test]
fn template_without_placeholder_is_unchanged_and_unusable() {
    let template = "https://example.com/update?host=test";
    assert!(!template_is_usable(template));
    assert!(template_is_usable("https://x/?a={ip}"));
    assert_eq!(ddns_update_url(template, "203.0.113.5"), template);
}

#[test]
fn replace_str_replaces_every_occurrence_left_to_right() {
    assert_eq!(replace_str("{ip},{ip}", "{ip}", "1.2.3.4"), "1.2.3.4,1.2.3.4");
    assert_eq!(replace_str("aaa", "aa", "b"), "ba");
    assert_eq!(replace_str("", "x", "y"), "");
}

#[test]
fn ip_change_detection() {
    assert!(ip_changed(None, "203.0.113.5"));
    assert!(ip_changed(Some("203.0.113.4"), "203.0.113.5"));
    assert!(!ip_changed(Some("203.0.113.5"), "203.0.113.5"));
}

#[test]
fn heartbeat_is_healthy_when_recent_or_never_started() {
    assert_eq!(heartbeat_status(0, 1_000_000), (true, 0));
    assert_eq!(heartbeat_status(1_000_000, 1_000_100), (true, 100));
    assert_eq!(heartbeat_status(1_000_000, 1_000_000 + 600), (false, 600));
}

#[test]
fn urlencoding_lite_leaves_safe_chars_untouched() {
    assert_eq!(urlencoding_lite("my-sub_domain.01"), "my-sub_domain.01");
}

#[test]
fn urlencoding_lite_encodes_unsafe_chars() {
    assert_eq!(urlencoding_lite("a b/c"), "a%20b%2Fc");
}

#[test]
fn duckdns_url_encodes_its_parameters() {
    assert_eq!(
        duckdns_update_url("my host", "t/k", Some("203.0.113.5")),
        "https://www.duckdns.org/update?domains=my%20host&token=t%2Fk&ip=203.0.113.5"
    );
    assert_eq!(duckdns_update_url("h", "t", None), "https://www.duckdns.org/update?domains=h&token=t");
}

#[test]
fn duckdns_answers_and_settings() {
    assert!(duckdns_response_ok("OK\n203.0.113.5"));
    assert!(duckdns_response_ok("  OK"));
    assert!(!duckdns_response_ok("KO"));
    assert!(duckdns_settings_usable("host", "token"));
    assert!(!duckdns_settings_usable(" ", "token"));
    assert!(!duckdns_settings_usable("host", ""));
}

use open_web_server::ddns::{check_free_domain_request, duckdns_update_result, setup_free_domain_response, SetupFreeDomainRequest};

#[test]
fn update_duckdns_parses_ok_response_via_mock_server() {
    let r = duckdns_update_result("OK\n203.0.113.5\n".to_string());
    assert!(r.ok);
    assert_eq!(r.raw_body, "OK\n203.0.113.5\n");
    assert!(!duckdns_update_result("KO".to_string()).ok);
}

#[test]
fn free_domain_setup_request_and_answer() {
    let blank = SetupFreeDomainRequest { domain: "host".to_string(), token: " ".to_string() };
    assert_eq!(check_free_domain_request(&blank), Err("both 'domain' and 'token' must be non-empty".to_string()));
    let good = SetupFreeDomainRequest { domain: "host".to_string(), token: "t".to_string() };
    assert_eq!(check_free_domain_request(&good), Ok(()));

    let (status, resp) = setup_free_domain_response("myhost", duckdns_update_result("OK".to_string()), 3, 20);
    assert_eq!(status, 200);
    assert_eq!(resp.full_hostname, "myhost.duckdns.org");
    assert!(resp.verified);
    assert_eq!(resp.remaining_capacity, 17);
    assert!(resp.message.contains("'myhost.duckdns.org' は自動更新ループに登録されました(このインスタンスで現在3/20件登録済み、残り17件登録可能)"));

    let (status, resp) = setup_free_domain_response("myhost", duckdns_update_result("KO".to_string()), 25, 20);
    assert_eq!(status, 502);
    assert!(!resp.verified);
    assert_eq!(resp.remaining_capacity, 0);
    assert_eq!(
        resp.message,
        "DuckDNS側が失敗を返しました('myhost.duckdns.org')。トークンやサブドメイン名を再確認してください。生レスポンス: KO(登録自体は完了していますが、自動更新も同じ理由で失敗する可能性があります)"
    );
}
