use open_web_server::encoding::subtle_eq;

#[test]
fn subtle_eq_matches_equal_and_rejects_different() {
    assert!(subtle_eq(b"secret", b"secret"));
    assert!(!subtle_eq(b"secret", b"secrxt"));
    assert!(!subtle_eq(b"secret", b"short"));
}

use open_web_server::sftp::{connection_info, relative_request, DomainEntry};

fn domain(name: &str) -> DomainEntry {
    DomainEntry { domain: name.to_string(), full_hostname: format!("{name}.duckdns.org") }
}

#[test]
fn requested_paths_are_taken_relative_to_the_root() {
    assert_eq!(relative_request("/uploads/a.txt"), Some("uploads/a.txt".to_string()));
    assert_eq!(relative_request("///"), None);
    assert_eq!(relative_request(""), None);
}

#[test]
fn connection_info_prefers_public_host_then_requested_domain_then_address() {
    let domains = vec![domain("alpha"), domain("beta")];
    let info = connection_info(Some("0.0.0.0:2222"), None, &domains, Some("x=1&host=beta"), Some("203.0.113.5".to_string()));
    assert!(info.sftp_enabled);
    assert_eq!(info.port, Some(2222));
    assert_eq!(info.host, "beta.duckdns.org");
    assert_eq!(info.example_command.as_deref(), Some("sftp -P 2222 user@beta.duckdns.org"));
    assert_eq!(info.available_duckdns_domains, vec!["alpha.duckdns.org", "beta.duckdns.org"]);

    let info = connection_info(Some("0.0.0.0:2222"), Some("files.example"), &domains, None, None);
    assert_eq!(info.host, "files.example");

    let info = connection_info(Some("0.0.0.0:2222"), None, &domains, Some("host=gamma"), Some("203.0.113.5".to_string()));
    assert_eq!(info.host, "203.0.113.5");

    let info = connection_info(None, None, &[], None, None);
    assert!(!info.sftp_enabled);
    assert_eq!(info.port, None);
    assert_eq!(info.example_command, None);
    assert_eq!(info.host, "(unknown - set OPEN_WEB_SERVER_SFTP_PUBLIC_HOST or check connectivity)");
}

#[test]
fn authorized_keys_blobs_skip_comments_blank_and_malformed_lines() {
    let content = "# admin keys\n\nssh-ed25519 AAAAC3NzaC1 user@host\r\n   ssh-rsa AAAAB3NzaC1yc2E   \nmalformed-line-without-blob\n\t# indented comment\necdsa-sha2-nistp256 AAAAE2Vj";
    assert_eq!(
        open_web_server::sftp::authorized_key_blobs(content),
        vec!["AAAAC3NzaC1".to_string(), "AAAAB3NzaC1yc2E".to_string(), "AAAAE2Vj".to_string()]
    );
    assert!(open_web_server::sftp::authorized_key_blobs("").is_empty());
}
