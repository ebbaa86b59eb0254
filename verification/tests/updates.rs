use fpv_editor::updates::{is_newer, pick_asset_for_platform, strip_leading_v, update_check_result, ReleaseAsset};

fn asset(name: &str, url: &str) -> ReleaseAsset {
    ReleaseAsset { name: name.to_string(), browser_download_url: url.to_string() }
}

#[test]
fn newer_patch_and_minor_versions_are_detected() {
    assert!(is_newer("0.3.1", "0.3.0"));
    assert!(is_newer("0.4.0", "0.3.9"));
    assert!(is_newer("1.0.0", "0.9.9"));
    assert!(!is_newer("0.3.0", "0.3.0"));
    assert!(!is_newer("0.2.9", "0.3.0"));
}

#[test]
fn missing_and_non_numeric_parts_count_as_zero() {
    assert!(!is_newer("1.0", "1.0.0"));
    assert!(is_newer("1.0.1", "1.0"));
    assert!(!is_newer("1.0.0-beta", "1.0.0"));
    assert!(is_newer("1.0.0-2", "1.0.0"));
    assert!(is_newer("10.0.0", "9.99.99"));
}

#[test]
fn leading_v_is_stripped() {
    assert_eq!(strip_leading_v("v9.9.9"), "9.9.9");
    assert_eq!(strip_leading_v("vv1"), "1");
    assert_eq!(strip_leading_v("1.v"), "1.v");
}

#[test]
fn the_first_preferred_suffix_with_a_match_wins() {
    let assets = vec![
        asset("FPVEditor_9.9.9_aarch64.dmg", "https://example.com/app.dmg"),
        asset("fpv-editor_9.9.9_amd64.deb", "https://example.com/app.deb"),
        asset("fpv-editor_9.9.9_amd64.AppImage", "https://example.com/app.AppImage"),
    ];
    let linux = vec![".AppImage".to_string(), ".deb".to_string()];
    let picked = pick_asset_for_platform(&assets, &linux).unwrap();
    assert_eq!(picked.browser_download_url, "https://example.com/app.AppImage");
    let windows = vec![".msi".to_string()];
    assert!(pick_asset_for_platform(&assets, &windows).is_none());
}

#[test]
fn update_result_reports_an_available_update() {
    let assets = vec![asset("FPVEditor_9.9.9_x64.msi", "https://example.com/app.msi")];
    let result = update_check_result(
        "0.3.0",
        "v9.9.9",
        "https://github.com/mroxso/FPVEditor/releases/tag/v9.9.9".to_string(),
        Some("Release notes".to_string()),
        None,
        &assets,
        &vec![".msi".to_string()],
    );
    assert_eq!(result.latest_version, "9.9.9");
    assert!(result.update_available);
    assert_eq!(result.download_url.as_deref(), Some("https://example.com/app.msi"));
    assert_eq!(result.asset_name.as_deref(), Some("FPVEditor_9.9.9_x64.msi"));
    assert_eq!(result.release_notes.as_deref(), Some("Release notes"));
}

#[test]
fn update_result_reports_no_update_when_already_current() {
    let result = update_check_result("v0.3.0", "v0.3.0", "u".to_string(), None, None, &Vec::new(), &vec![".deb".to_string()]);
    assert!(!result.update_available);
    assert!(result.download_url.is_none());
}
