use open_web_server::demo::{render, DEMO_HEAD, DEMO_TAIL, NO_SITES_ROW, NO_TENANTS_ROW, WATCHDOG_DISABLED};
use open_web_server::domain_watchdog::HostHealth;
use open_web_server::tenant_router::{BackendKind, TenantConfig};
use open_web_server::web_vhost::{CompatMode, PhpMode, WebVhostConfig};

fn tenant(host: &str, backend: BackendKind) -> TenantConfig {
    TenantConfig {
        host: host.to_string(),
        backend,
        backend_addr: "10.0.0.5:9000".to_string(),
        db_uri: "postgres://secret@db/app".to_string(),
        path_prefix: None,
    }
}

fn site(host: &str) -> WebVhostConfig {
    WebVhostConfig {
        host: host.to_string(),
        docroot: "/srv/private/docroot".to_string(),
        php_enabled: false,
        compat_mode: CompatMode::Nginx,
        php_mode: PhpMode::BuiltinServer,
        rewrite_rules: vec![],
        basic_auth: None,
        tls_cert: None,
        access_control: None,
    }
}

fn health(ok: bool) -> HostHealth {
    let mut h = HostHealth::initial();
    h.last_ok = ok;
    h
}

#[test]
fn empty_demo_page_shows_placeholders() {
    let page = render(&[], &[], &[]);
    let expected = format!(
        "{DEMO_HEAD}{NO_TENANTS_ROW}{}{NO_SITES_ROW}{}{WATCHDOG_DISABLED}{DEMO_TAIL}",
        open_web_server::demo::DEMO_AFTER_TENANTS,
        open_web_server::demo::DEMO_AFTER_SITES
    );
    assert_eq!(page, expected);
    assert!(page.starts_with("<!doctype html>"));
    assert!(page.ends_with("</html>\n"));
}

#[test]
fn demo_page_lists_tenants_and_sites_escaped_without_internals() {
    let page = render(
        &[tenant("a<b>.example", BackendKind::OpenRuno), tenant("shop.example", BackendKind::PoemCosmoTauri)],
        &[site("static.example"), site("\"q\".example")],
        &[],
    );
    assert!(page.contains(
        "<tr><td>a&lt;b&gt;.example</td><td>OpenRuno</td></tr>\n<tr><td>shop.example</td><td>PoemCosmoTauri</td></tr>"
    ));
    assert!(page.contains("<tr><td>static.example</td></tr>\n<tr><td>&quot;q&quot;.example</td></tr>"));
    assert!(!page.contains(NO_TENANTS_ROW));
    assert!(!page.contains(NO_SITES_ROW));
    assert!(!page.contains("10.0.0.5"));
    assert!(!page.contains("postgres://"));
    assert!(!page.contains("/srv/private"));
}

#[test]
fn demo_page_summarises_health_checks() {
    let page = render(
        &[],
        &[],
        &[("a.example".to_string(), health(true)), ("b.example".to_string(), health(false))],
    );
    assert!(page.contains(
        "<p>1 / 2 ホストが直近のチェックで正常応答 / 1 of 2 monitored hosts responded healthy on the last check</p>"
    ));
    assert!(!page.contains(WATCHDOG_DISABLED));
}
