use std::io::Write;
use navi_engine::types::LogLevel;
use navi_engine::updater::{
    asset_name, binary_name, is_binary_entry, is_newer, locate_binary, parse_semver, plan_update,
    ReleaseAsset, ReleaseInfo, TargetOs,
};

#[test]
fn semver_newer_patch() {
    assert!(is_newer("v1.0.11", "1.0.10"));
}

#[test]
fn semver_older_patch() {
    assert!(!is_newer("v1.0.9", "1.0.10"));
}

#[test]
fn semver_equal() {
    assert!(!is_newer("v1.0.10", "1.0.10"));
}

#[test]
fn semver_major_bump() {
    assert!(is_newer("v2.0.0", "1.9.9"));
}

#[test]
fn semver_no_v_prefix() {
    assert!(is_newer("2.0.0", "1.9.9"));
}

#[test]
fn semver_prerelease_stripped() {
    assert!(is_newer("v1.0.11-alpha.1", "1.0.10"));
}

#[test]
fn semver_components_parse() {
    assert_eq!(parse_semver("v1.2.3"), (1, 2, 3));
    assert_eq!(parse_semver("vv4.5"), (4, 5, 0));
    assert_eq!(parse_semver("7"), (7, 0, 0));
    assert_eq!(parse_semver(""), (0, 0, 0));
    assert_eq!(parse_semver("1.2.3.4"), (1, 2, 0));
    assert_eq!(parse_semver("1.x.3"), (1, 0, 3));
    assert_eq!(parse_semver("+1.+2.3-rc.1"), (1, 2, 3));
    assert_eq!(parse_semver("18446744073709551616.1.1"), (0, 1, 1));
}

#[test]
fn semver_newer_is_strict_order() {
    assert!(!is_newer("1.2.3", "v1.2.3"));
    assert!(is_newer("1.3.0", "1.2.9"));
    assert!(!is_newer("1.2.9", "1.3.0"));
}

#[test]
fn platform_asset_and_binary_names() {
    assert_eq!(asset_name(TargetOs::Linux, true), "navi-linux-arm64.zip");
    assert_eq!(asset_name(TargetOs::Linux, false), "navi-linux.zip");
    assert_eq!(asset_name(TargetOs::Windows, false), "navi-windows.zip");
    assert_eq!(asset_name(TargetOs::Macos, true), "navi-macos.zip");
    assert_eq!(asset_name(TargetOs::Other, false), "navi-linux.zip");
    assert_eq!(binary_name(TargetOs::Windows), "navi_bot.exe");
    assert_eq!(binary_name(TargetOs::Linux), "navi_bot");
}

#[test]
fn binary_entry_names() {
    assert!(is_binary_entry("navi_bot", "navi_bot"));
    assert!(is_binary_entry("release/navi_bot", "navi_bot"));
    assert!(is_binary_entry("release\\navi_bot", "navi_bot"));
    assert!(!is_binary_entry("navi_bot.txt", "navi_bot"));
    assert!(!is_binary_entry("xnavi_bot", "navi_bot"));
}

fn asset(name: &str, url: Option<&str>) -> ReleaseAsset {
    ReleaseAsset { name: Some(name.to_string()), url: url.map(|u| u.to_string()) }
}

#[test]
fn update_plan_downloads_first_matching_asset() {
    let release = ReleaseInfo {
        tag: Some("v1.2.0".to_string()),
        assets: Some(vec![
            asset("navi-windows.zip", Some("https://w")),
            asset("navi-linux.zip", None),
            asset("navi-linux.zip", Some("https://l")),
        ]),
    };
    let plan = plan_update(&release, "1.1.0", "navi-linux.zip");
    assert_eq!(plan.download.as_deref(), Some("https://l"));
    assert_eq!(plan.logs.len(), 2);
    assert_eq!(plan.logs[0].0, LogLevel::Info);
    assert_eq!(plan.logs[0].1, "Current: v1.1.0  Latest: v1.2.0");
    assert_eq!(plan.logs[1].1, "Downloading https://l ...");
}

#[test]
fn update_plan_stops_when_up_to_date_or_incomplete() {
    let same = ReleaseInfo { tag: Some("v1.1.0".to_string()), assets: None };
    let plan = plan_update(&same, "1.1.0", "navi-linux.zip");
    assert!(plan.download.is_none());
    assert_eq!(plan.logs[1].1, "Already up to date.");

    let no_tag = ReleaseInfo { tag: None, assets: None };
    let plan = plan_update(&no_tag, "1.1.0", "navi-linux.zip");
    assert_eq!(plan.logs.len(), 1);
    assert_eq!(plan.logs[0].0, LogLevel::Error);
    assert_eq!(plan.logs[0].1, "GitHub response missing tag_name field");

    let no_assets = ReleaseInfo { tag: Some("v2.0.0".to_string()), assets: None };
    let plan = plan_update(&no_assets, "1.1.0", "navi-linux.zip");
    assert_eq!(plan.logs[1].1, "No assets found in release");

    let no_match = ReleaseInfo {
        tag: Some("v2.0.0".to_string()),
        assets: Some(vec![asset("navi-macos.zip", Some("https://m"))]),
    };
    let plan = plan_update(&no_match, "1.1.0", "navi-linux.zip");
    assert_eq!(plan.logs[1].0, LogLevel::Error);
    assert_eq!(plan.logs[1].1, "No asset named 'navi-linux.zip' found in release v2.0.0");
}

fn make_zip(entries: &[(&str, &[u8])]) -> Vec<u8> {
    let mut buf = std::io::Cursor::new(Vec::new());
    {
        let mut w = zip::ZipWriter::new(&mut buf);
        let opts = zip::write::SimpleFileOptions::default()
            .compression_method(zip::CompressionMethod::Stored);
        for (name, data) in entries {
            w.start_file(*name, opts).unwrap();
            w.write_all(data).unwrap();
        }
        w.finish().unwrap();
    }
    buf.into_inner()
}

#[test]
fn locate_binary_reads_matching_entry() {
    let bytes = make_zip(&[("README.md", b"hello"), ("dist/navi_bot", b"\x7fELF-binary")]);
    let found = locate_binary(&bytes, "navi_bot").unwrap();
    assert_eq!(found, b"\x7fELF-binary".to_vec());
}

#[test]
fn locate_binary_reports_missing_binary_and_bad_archive() {
    let bytes = make_zip(&[("README.md", b"hello")]);
    let err = locate_binary(&bytes, "navi_bot").unwrap_err();
    assert_eq!(err, "'navi_bot' not found inside the downloaded zip");
    assert!(locate_binary(b"not a zip", "navi_bot").is_err());
}
