use open_web_server::self_update::{is_newer, parse_version, unix_tarball_asset, windows_zip_asset, LatestRelease, ReleaseAsset};

#[test]
fn parses_version_strings_with_and_without_v_prefix() {
    assert_eq!(parse_version("v0.5.1"), (0, 5, 1));
    assert_eq!(parse_version("0.5.1"), (0, 5, 1));
    assert_eq!(parse_version("1.0"), (1, 0, 0));
    assert_eq!(parse_version("garbage"), (0, 0, 0));
}

#[test]
fn parse_version_trims_and_ignores_extra_fields() {
    assert_eq!(parse_version("  v2.10.3  "), (2, 10, 3));
    assert_eq!(parse_version("1.2.3.4"), (1, 2, 3));
    assert_eq!(parse_version("1.x.7"), (1, 0, 7));
}

#[test]
fn is_newer_compares_semver_correctly() {
    assert!(is_newer("v0.6.0", "0.5.1"));
    assert!(is_newer("v1.0.0", "0.9.9"));
    assert!(!is_newer("v0.5.1", "0.5.1"));
    assert!(!is_newer("v0.5.0", "0.5.1"));
}

#[test]
fn windows_zip_asset_matches_expected_naming() {
    let release = LatestRelease {
        tag_name: "v0.2.0".into(),
        assets: vec![
            ReleaseAsset { name: "open-web-server-linux-x86_64.tar.gz".into(), browser_download_url: "x".into() },
            ReleaseAsset { name: "open-web-server-windows-x86_64.zip".into(), browser_download_url: "y".into() },
        ],
    };
    let found = windows_zip_asset(&release).expect("should find windows asset");
    assert_eq!(found.name, "open-web-server-windows-x86_64.zip");
}

#[test]
fn unix_tarball_asset_is_none_when_absent() {
    let release =
        LatestRelease { tag_name: "v0.2.0".into(), assets: vec![ReleaseAsset { name: "unrelated.txt".into(), browser_download_url: "x".into() }] };
    assert!(unix_tarball_asset(&release, false).is_none());
    assert!(unix_tarball_asset(&release, true).is_none());
}

#[test]
fn unix_tarball_asset_picks_the_platform_label_case_insensitively() {
    let release = LatestRelease {
        tag_name: "v0.2.0".into(),
        assets: vec![
            ReleaseAsset { name: "Open-Web-Server-MacOS.tar.gz".into(), browser_download_url: "m".into() },
            ReleaseAsset { name: "open-web-server-LINUX-x86_64.tar.gz".into(), browser_download_url: "l".into() },
        ],
    };
    assert_eq!(unix_tarball_asset(&release, true).unwrap().browser_download_url, "m");
    assert_eq!(unix_tarball_asset(&release, false).unwrap().browser_download_url, "l");
}
