use open_web_server::tenant_router::{
    strip_path_prefix, tls_remove_reply, tls_upsert_reply, BackendKind, TenantConfig, TenantError, TenantRegistry,
};

fn sample(host: &str) -> TenantConfig {
    TenantConfig {
        host: host.to_string(),
        backend: BackendKind::OpenRuno,
        backend_addr: "127.0.0.1:9001".to_string(),
        db_uri: "postgres://localhost/db".to_string(),
        path_prefix: None,
    }
}

fn sample_prefixed(host: &str, prefix: &str, backend_addr: &str) -> TenantConfig {
    TenantConfig {
        host: host.to_string(),
        backend: BackendKind::OpenRuno,
        backend_addr: backend_addr.to_string(),
        db_uri: "postgres://localhost/db".to_string(),
        path_prefix: Some(prefix.to_string()),
    }
}

#[test]
fn add_and_resolve() {
    let mut registry = TenantRegistry::new();
    registry.add(sample("shop.example.com")).unwrap();

    let resolved = registry.resolve("shop.example.com", "/");
    assert!(resolved.is_some());
    assert_eq!(resolved.unwrap().config.host, "shop.example.com");
}

#[test]
fn tenant_router_resolve_strips_port() {
    let mut registry = TenantRegistry::new();
    registry.add(sample("shop.example.com")).unwrap();

    let resolved = registry.resolve("shop.example.com:8080", "/");
    assert!(resolved.is_some());
}

#[test]
fn resolve_unknown_host_is_none() {
    let mut registry = TenantRegistry::new();
    assert!(registry.resolve("unknown.example.com", "/").is_none());
}

#[test]
fn add_duplicate_fails() {
    let mut registry = TenantRegistry::new();
    registry.add(sample("a.example.com")).unwrap();
    let err = registry.add(sample("a.example.com")).unwrap_err();
    assert!(matches!(err, TenantError::AlreadyExists(_)));
}

#[test]
fn tenant_router_remove_missing_fails() {
    let mut registry = TenantRegistry::new();
    let err = registry.remove("nope.example.com").unwrap_err();
    assert!(matches!(err, TenantError::NotFound(_)));
}

#[test]
fn tenant_router_remove_then_resolve_is_none() {
    let mut registry = TenantRegistry::new();
    registry.add(sample("a.example.com")).unwrap();
    registry.remove("a.example.com").unwrap();
    assert!(registry.resolve("a.example.com", "/").is_none());
}

#[test]
fn upsert_replaces_existing() {
    let mut registry = TenantRegistry::new();
    registry.add(sample("a.example.com")).unwrap();

    let mut updated = sample("a.example.com");
    updated.backend_addr = "127.0.0.1:9999".to_string();
    registry.upsert(updated);

    let resolved = registry.resolve("a.example.com", "/").unwrap();
    assert_eq!(resolved.config.backend_addr, "127.0.0.1:9999");
}

/// 同一Hostに複数の`path_prefix`テナントを共存登録し、パスに応じて
/// 正しく振り分けられることを確認する("分身の術"の対象拡大、
/// 2026-07-22)。
#[test]
fn path_prefix_routes_to_the_matching_backend_under_one_host() {
    let mut registry = TenantRegistry::new();
    registry
        .add(sample_prefixed("runo.tokyo", "/blog", "127.0.0.1:8101"))
        
        .unwrap();
    registry
        .add(sample_prefixed("runo.tokyo", "/chiketto", "127.0.0.1:8100"))
        
        .unwrap();
    registry
        .add(sample_prefixed("runo.tokyo", "/ec", "127.0.0.1:8102"))
        
        .unwrap();

    let blog = registry.resolve("runo.tokyo", "/blog/posts/1").unwrap();
    assert_eq!(blog.config.backend_addr, "127.0.0.1:8101");

    let chiketto = registry.resolve("runo.tokyo", "/chiketto").unwrap();
    assert_eq!(chiketto.config.backend_addr, "127.0.0.1:8100");

    let ec = registry.resolve("runo.tokyo", "/ec/").unwrap();
    assert_eq!(ec.config.backend_addr, "127.0.0.1:8102");

    // 未登録のプレフィックス・ホスト無しのフォールバック無しなら None。
    assert!(registry.resolve("runo.tokyo", "/other").is_none());
}

/// path_prefix指定のテナントと、Hostのみ(prefix未指定)のテナントが
/// 同居できる。prefixに一致すればそちらを優先、しなければ
/// prefix無しの方へフォールバックする(既存の1Host1テナント運用との
/// 後方互換)。
#[test]
fn path_prefix_falls_back_to_host_only_tenant() {
    let mut registry = TenantRegistry::new();
    registry
        .add(sample("runo.tokyo")) // path_prefix無し(従来運用のトップページ相当)
        
        .unwrap();
    registry
        .add(sample_prefixed("runo.tokyo", "/blog", "127.0.0.1:8101"))
        
        .unwrap();

    let top = registry.resolve("runo.tokyo", "/").unwrap();
    assert_eq!(top.config.backend_addr, "127.0.0.1:9001");

    let blog = registry.resolve("runo.tokyo", "/blog").unwrap();
    assert_eq!(blog.config.backend_addr, "127.0.0.1:8101");
}

/// 同一Host+同一path_prefixの重複登録は拒否されるが、prefixが違えば
/// 別テナントとして共存できる(逆に言えば重複拒否はprefix込みで判定
/// されることの確認)。
#[test]
fn add_duplicate_same_prefix_fails_but_different_prefix_succeeds() {
    let mut registry = TenantRegistry::new();
    registry
        .add(sample_prefixed("runo.tokyo", "/blog", "127.0.0.1:8101"))
        
        .unwrap();
    let err = registry
        .add(sample_prefixed("runo.tokyo", "/blog", "127.0.0.1:9999"))
        
        .unwrap_err();
    assert!(matches!(err, TenantError::AlreadyExists(_)));

    registry
        .add(sample_prefixed("runo.tokyo", "/ec", "127.0.0.1:8102"))
        
        .unwrap();
    assert_eq!(registry.len(), 2);
}

/// `remove_prefixed`で個別のprefixテナントだけを削除でき、残りの
/// テナントには影響しない。
#[test]
fn remove_prefixed_removes_only_that_entry() {
    let mut registry = TenantRegistry::new();
    registry
        .add(sample_prefixed("runo.tokyo", "/blog", "127.0.0.1:8101"))
        
        .unwrap();
    registry
        .add(sample_prefixed("runo.tokyo", "/ec", "127.0.0.1:8102"))
        
        .unwrap();

    registry
        .remove_prefixed("runo.tokyo", Some("/blog"))
        
        .unwrap();

    assert!(registry.resolve("runo.tokyo", "/blog").is_none());
    assert!(registry.resolve("runo.tokyo", "/ec").is_some());
}

#[test]
fn strip_path_prefix_variants() {
    assert_eq!(strip_path_prefix("/blog", "/blog"), "/");
    assert_eq!(strip_path_prefix("/blog/", "/blog"), "/");
    assert_eq!(strip_path_prefix("/blog/posts/1", "/blog"), "/posts/1");
    assert_eq!(strip_path_prefix("/other", "/blog"), "/other");
}

#[test]
fn tenant_router_load_from_toml_bulk_provisioning() {
    let mut registry = TenantRegistry::new();
    let configs = vec![
        TenantConfig {
            host: "shop.example.com".to_string(),
            backend: BackendKind::OpenRuno,
            backend_addr: "127.0.0.1:9001".to_string(),
            db_uri: "postgres://localhost/shop".to_string(),
            path_prefix: None,
        },
        TenantConfig {
            host: "app.example.com".to_string(),
            backend: BackendKind::PoemCosmoTauri,
            backend_addr: "127.0.0.1:9002".to_string(),
            db_uri: "postgres://localhost/app".to_string(),
            path_prefix: None,
        },
    ];

    let count = registry.load(configs);
    assert_eq!(count, 2);
    assert_eq!(registry.len(), 2);
    assert!(registry.resolve("shop.example.com", "/").is_some());
    assert!(registry.resolve("app.example.com", "/").is_some());
}

#[test]
fn list_returns_all_configs() {
    let mut registry = TenantRegistry::new();
    registry.add(sample("a.example.com")).unwrap();
    registry.add(sample("b.example.com")).unwrap();
    let list = registry.list();
    assert_eq!(list.len(), 2);
}

#[test]
fn contains_host_sees_any_entry_of_the_host() {
    let mut registry = TenantRegistry::new();
    assert!(!registry.contains_host("runo.tokyo"));
    registry.add(sample_prefixed("runo.tokyo", "/blog", "127.0.0.1:8101")).unwrap();
    assert!(registry.contains_host("runo.tokyo"));
    registry.remove_prefixed("runo.tokyo", Some("/blog")).unwrap();
    assert!(!registry.contains_host("runo.tokyo"));
}

#[test]
fn longest_matching_prefix_wins() {
    let mut registry = TenantRegistry::new();
    registry.add(sample_prefixed("runo.tokyo", "/blog", "127.0.0.1:8101")).unwrap();
    registry.add(sample_prefixed("runo.tokyo", "/blog/api", "127.0.0.1:8103")).unwrap();
    assert_eq!(registry.resolve("runo.tokyo", "/blog/api/x").unwrap().config.backend_addr, "127.0.0.1:8103");
    assert_eq!(registry.resolve("runo.tokyo", "/blog/x").unwrap().config.backend_addr, "127.0.0.1:8101");
    assert!(registry.resolve_host_only("runo.tokyo").is_none());
    assert!(registry.resolve_prefix_only("runo.tokyo:443", "/blog").is_some());
}

#[test]
fn add_then_remove_restores_an_unknown_host() {
    let mut registry = TenantRegistry::new();
    registry.add(sample("x.example.com")).unwrap();
    registry.remove("x.example.com").unwrap();
    assert_eq!(registry.len(), 0);
    assert!(registry.is_empty());
    assert_eq!(
        TenantError::AlreadyExists("x.example.com".to_string()).message(),
        "host 'x.example.com' is already registered"
    );
    assert_eq!(TenantError::NotFound("y".to_string()).message(), "host 'y' is not registered");
}

#[test]
fn tls_certificate_replies() {
    assert_eq!(tls_upsert_reply("a.example", Ok(())), (200, "tls certificate registered for 'a.example'".to_string()));
    assert_eq!(
        tls_upsert_reply("a.example", Err("bad pem".to_string())),
        (400, "invalid certificate/key for 'a.example': bad pem".to_string())
    );
    assert_eq!(
        tls_remove_reply("a.example", Ok(())),
        (200, "tls certificate removed for 'a.example' (if it existed)".to_string())
    );
    assert_eq!(tls_remove_reply("a.example", Err("io".to_string())), (500, "io".to_string()));
}
