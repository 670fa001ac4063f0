use open_web_server::static_files::is_static_asset;

#[test]
fn is_static_asset_classifies_extensions() {
    assert!(is_static_asset("/images/foo.png"));
    assert!(is_static_asset("/css/style.css?v=2"));
    assert!(!is_static_asset("/index.php"));
    assert!(!is_static_asset("/"));
}
