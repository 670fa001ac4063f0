//! The read-only demonstration page served at `GET /demo`: the registered
//! tenants (host and backend kind), the registered static/PHP sites (host
//! only) and a summary of the health checks. Addresses, database URIs and
//! document roots are never shown.

use vstd::prelude::*;
use crate::domain_watchdog::HostHealth;
use crate::encoding::{escape_html, escape_html_spec};
use crate::tenant_router::{BackendKind, TenantConfig};
use crate::text::{decimal_digits, push_str, u64_to_decimal};
use crate::web_vhost::WebVhostConfig;

verus! {

/// The page up to the tenant rows.
pub const DEMO_HEAD: &'static str = "<!doctype html>
<html lang=\"ja\">
<head>
<meta charset=\"utf-8\">
<title>open-web-server デモ / Demo</title>
<meta name=\"viewport\" content=\"width=device-width, initial-scale=1\">
<style>
  body { font-family: system-ui, sans-serif; max-width: 860px; margin: 2rem auto; padding: 0 1rem; line-height: 1.6; color: #1a1a1a; }
  h1 { font-size: 1.5rem; }
  h2 { font-size: 1.1rem; margin-top: 2rem; border-bottom: 1px solid #ccc; padding-bottom: 0.3rem; }
  table { border-collapse: collapse; width: 100%; margin-top: 0.5rem; }
  th, td { border: 1px solid #ddd; padding: 0.4rem 0.6rem; text-align: left; font-size: 0.92rem; }
  th { background: #f4f4f4; }
  td.empty { color: #777; font-style: italic; }
  .notice { background: #fff8e1; border: 1px solid #e0c96a; border-radius: 6px; padding: 0.8rem 1rem; margin: 1rem 0; font-size: 0.92rem; }
  .badge-ok { color: #1a7f37; font-weight: bold; }
  code { background: #f0f0f0; padding: 0.1rem 0.3rem; border-radius: 3px; }
  footer { margin-top: 2.5rem; font-size: 0.82rem; color: #666; }
</style>
</head>
<body>
<h1>open-web-server デモ環境 / Demo Environment</h1>
<p>
  ここは <strong>open-web-server</strong>(Rust製のWebサーバー/リバースプロキシ本体
  — TLS終端・テナントルーティング・vhost配信・ヘルスチェック監視を1バイナリで
  提供)の、実際に稼働中のインスタンスを<strong>読み取り専用</strong>で
  覗けるデモページです。<br>
  This page lets you inspect a <strong>live, read-only</strong> view of
  <strong>open-web-server</strong> (a Rust-native web server &amp; reverse
  proxy providing TLS termination, tenant routing, vhost serving, and health
  monitoring in a single binary).
</p>
<div class=\"notice\">
  <strong>正直な開示 / Honest disclosure:</strong>
  このデモは本番と同一のバックエンドインスタンスを指すエイリアスです。
  このページ自体は<code>GET</code>のみで構成され、テナント追加・削除・
  vhost変更のような本番の管理操作(<code>POST</code>/<code>DELETE</code>/
  <code>PUT</code> の <code>/admin/*</code> API、管理トークン必須)は
  一切実行できません。表示している内容も、内部ネットワーク構成
  (転送先アドレス・DB接続文字列・サーバー上のファイルパス等)を含まない
  安全な要約に限定しています。<br>
  This demo is an alias pointing at the same backend instance as
  production. The page itself only issues <code>GET</code> requests and
  exposes no path to destructive admin operations (adding/removing
  tenants, changing vhosts — all gated behind the authenticated
  <code>/admin/*</code> API). The data shown is limited to a safe summary
  that excludes internal topology (backend addresses, DB connection
  strings, on-disk paths).
</div>

<h2>テナントルーティング一覧(読み取り専用) / Tenant Routing (read-only)</h2>
<table>
<thead><tr><th>Host</th><th>Backend</th></tr></thead>
<tbody>
";

/// The page between the tenant rows and the site rows.
pub const DEMO_AFTER_TENANTS: &'static str = "
</tbody>
</table>

<h2>静的/PHP配信vhost一覧(読み取り専用) / Static/PHP Vhosts (read-only)</h2>
<table>
<thead><tr><th>Host</th></tr></thead>
<tbody>
";

/// The page between the site rows and the health summary.
pub const DEMO_AFTER_SITES: &'static str = "
</tbody>
</table>

<h2>ヘルスチェック状況 / Health Check Status</h2>
<p>";

/// The page after the health summary.
pub const DEMO_TAIL: &'static str = "</p>
<p><span class=\"badge-ok\">GET /healthz → ok</span>(このインスタンス自体の死活確認 / this instance's own liveness check)</p>

<footer>
  open-web-server —
  <a href=\"https://github.com/aon-co-jp/open-web-server\">GitHub</a>
</footer>
</body>
</html>
";

/// The single row shown when no tenant is registered.
pub const NO_TENANTS_ROW: &'static str = "<tr><td colspan=\"2\" class=\"empty\">(現在登録されているテナントはありません / no tenants registered yet)</td></tr>";

/// The single row shown when no site is registered.
pub const NO_SITES_ROW: &'static str = "<tr><td class=\"empty\">(現在登録されているvhostはありません / no static/PHP vhosts registered yet)</td></tr>";

/// The health summary when nothing is monitored.
pub const WATCHDOG_DISABLED: &'static str = "死活監視は未設定です(`OPEN_WEB_SERVER_WATCHDOG_ENABLED`が無効) / domain watchdog is not enabled on this instance";

/// The name a backend kind is shown under.
pub open spec fn backend_label(b: BackendKind) -> Seq<char> {
    match b {
        BackendKind::OpenRuno => "OpenRuno"@,
        BackendKind::PoemCosmoTauri => "PoemCosmoTauri"@,
    }
}

/// The row of one tenant: its escaped host and its backend kind.
pub open spec fn tenant_row(t: TenantConfig) -> Seq<char> {
    "<tr><td>"@ + escape_html_spec(t.host@) + "</td><td>"@ + backend_label(t.backend) + "</td></tr>"@
}

/// The rows of `ts`, one per line.
pub open spec fn joined_tenant_rows(ts: Seq<TenantConfig>) -> Seq<char>
    decreases ts.len(),
{
    if ts.len() == 0 {
        Seq::empty()
    } else if ts.len() == 1 {
        tenant_row(ts[0])
    } else {
        joined_tenant_rows(ts.drop_last()) + "\n"@ + tenant_row(ts.last())
    }
}

/// The tenant table body.
pub open spec fn tenant_rows(ts: Seq<TenantConfig>) -> Seq<char> {
    if ts.len() == 0 {
        NO_TENANTS_ROW@
    } else {
        joined_tenant_rows(ts)
    }
}

/// The row of one site: its escaped host.
pub open spec fn site_row(v: WebVhostConfig) -> Seq<char> {
    "<tr><td>"@ + escape_html_spec(v.host@) + "</td></tr>"@
}

/// The rows of `vs`, one per line.
pub open spec fn joined_site_rows(vs: Seq<WebVhostConfig>) -> Seq<char>
    decreases vs.len(),
{
    if vs.len() == 0 {
        Seq::empty()
    } else if vs.len() == 1 {
        site_row(vs[0])
    } else {
        joined_site_rows(vs.drop_last()) + "\n"@ + site_row(vs.last())
    }
}

/// The site table body.
pub open spec fn site_rows(vs: Seq<WebVhostConfig>) -> Seq<char> {
    if vs.len() == 0 {
        NO_SITES_ROW@
    } else {
        joined_site_rows(vs)
    }
}

/// How many monitored hosts answered healthily on their last check.
pub open spec fn healthy_count(ws: Seq<(String, HostHealth)>) -> nat
    decreases ws.len(),
{
    if ws.len() == 0 {
        0
    } else {
        healthy_count(ws.drop_last()) + if ws.last().1.last_ok {
            1nat
        } else {
            0nat
        }
    }
}

/// The health summary: `h / n` healthy hosts, in Japanese and English.
pub open spec fn watchdog_summary(ws: Seq<(String, HostHealth)>) -> Seq<char> {
    if ws.len() == 0 {
        WATCHDOG_DISABLED@
    } else {
        let h = decimal_digits(healthy_count(ws));
        let n = decimal_digits(ws.len());
        h + " / "@ + n + " ホストが直近のチェックで正常応答 / "@ + h + " of "@ + n
            + " monitored hosts responded healthy on the last check"@
    }
}

/// The whole page.
pub open spec fn demo_page(
    ts: Seq<TenantConfig>,
    vs: Seq<WebVhostConfig>,
    ws: Seq<(String, HostHealth)>,
) -> Seq<char> {
    DEMO_HEAD@ + tenant_rows(ts) + DEMO_AFTER_TENANTS@ + site_rows(vs) + DEMO_AFTER_SITES@
        + watchdog_summary(ws) + DEMO_TAIL@
}

proof fn lemma_healthy_count_bounded(ws: Seq<(String, HostHealth)>)
    ensures
        healthy_count(ws) <= ws.len(),
    decreases ws.len(),
{
    if ws.len() > 0 {
        lemma_healthy_count_bounded(ws.drop_last());
    }
}

fn push_tenant_rows(out: &mut String, tenants: &[TenantConfig])
    ensures
        final(out)@ == old(out)@ + tenant_rows(tenants@),
{
    if tenants.len() == 0 {
        push_str(out, NO_TENANTS_ROW);
        return;
    }
    let ghost start = out@;
    let mut i: usize = 0;
    while i < tenants.len()
        invariant
            i <= tenants@.len(),
            tenants@.len() > 0,
            out@ == start + joined_tenant_rows(tenants@.take(i as int)),
        decreases tenants.len() - i,
    {
        let t = &tenants[i];
        if i > 0 {
            push_str(out, "\n");
        }
        push_str(out, "<tr><td>");
        let host = escape_html(t.host.as_str());
        push_str(out, host.as_str());
        push_str(out, "</td><td>");
        match t.backend {
            BackendKind::OpenRuno => push_str(out, "OpenRuno"),
            BackendKind::PoemCosmoTauri => push_str(out, "PoemCosmoTauri"),
        }
        push_str(out, "</td></tr>");
        proof {
            let s = tenants@.take(i + 1);
            assert(s.drop_last() =~= tenants@.take(i as int));
            assert(s.last() == tenants@[i as int]);
        }
        i += 1;
    }
    assert(tenants@.take(i as int) =~= tenants@);
}

fn push_site_rows(out: &mut String, sites: &[WebVhostConfig])
    ensures
        final(out)@ == old(out)@ + site_rows(sites@),
{
    if sites.len() == 0 {
        push_str(out, NO_SITES_ROW);
        return;
    }
    let ghost start = out@;
    let mut i: usize = 0;
    while i < sites.len()
        invariant
            i <= sites@.len(),
            sites@.len() > 0,
            out@ == start + joined_site_rows(sites@.take(i as int)),
        decreases sites.len() - i,
    {
        if i > 0 {
            push_str(out, "\n");
        }
        push_str(out, "<tr><td>");
        let host = escape_html(sites[i].host.as_str());
        push_str(out, host.as_str());
        push_str(out, "</td></tr>");
        proof {
            let s = sites@.take(i + 1);
            assert(s.drop_last() =~= sites@.take(i as int));
            assert(s.last() == sites@[i as int]);
        }
        i += 1;
    }
    assert(sites@.take(i as int) =~= sites@);
}

fn push_watchdog_summary(out: &mut String, watchdog: &[(String, HostHealth)])
    ensures
        final(out)@ == old(out)@ + watchdog_summary(watchdog@),
{
    if watchdog.len() == 0 {
        push_str(out, WATCHDOG_DISABLED);
        return;
    }
    let mut healthy: usize = 0;
    let mut i: usize = 0;
    while i < watchdog.len()
        invariant
            i <= watchdog@.len(),
            healthy == healthy_count(watchdog@.take(i as int)),
        decreases watchdog.len() - i,
    {
        proof {
            let s = watchdog@.take(i + 1);
            assert(s.drop_last() =~= watchdog@.take(i as int));
            lemma_healthy_count_bounded(watchdog@.take(i as int));
        }
        if watchdog[i].1.last_ok {
            healthy = healthy + 1;
        }
        i += 1;
    }
    assert(watchdog@.take(i as int) =~= watchdog@);
    let h = u64_to_decimal(healthy as u64);
    let n = u64_to_decimal(watchdog.len() as u64);
    push_str(out, h.as_str());
    push_str(out, " / ");
    push_str(out, n.as_str());
    push_str(out, " ホストが直近のチェックで正常応答 / ");
    push_str(out, h.as_str());
    push_str(out, " of ");
    push_str(out, n.as_str());
    push_str(out, " monitored hosts responded healthy on the last check");
}

/// The demonstration page for these tenants, sites and health records.
pub fn render(tenants: &[TenantConfig], sites: &[WebVhostConfig], watchdog: &[(String, HostHealth)]) -> (r: String)
    ensures
        r@ == demo_page(tenants@, sites@, watchdog@),
{
    let mut out = String::new();
    push_str(&mut out, DEMO_HEAD);
    push_tenant_rows(&mut out, tenants);
    push_str(&mut out, DEMO_AFTER_TENANTS);
    push_site_rows(&mut out, sites);
    push_str(&mut out, DEMO_AFTER_SITES);
    push_watchdog_summary(&mut out, watchdog);
    push_str(&mut out, DEMO_TAIL);
    out
}

} // verus!
