use insulator::platform::{
    font_smoothing_defaults_args, github_avatar_url, linux_reduce_motion, linux_reduce_motion_enabled,
    macos_jpeg_photo, macos_picture_path, open_path_in_app, parse_boolean_setting, primary_shortcut,
    supports_liquid_glass, termy_open_url, windows_reduce_motion, OpenInAppRequest, Platform,
};

#[test]
fn boolean_settings_accept_every_spelling() {
    for on in ["1", "TRUE", " Yes", "on\n", "\u{a0}true"] {
        assert_eq!(parse_boolean_setting(on), Some(true), "{on:?}");
    }
    for off in ["0", "False", "NO ", "\toff"] {
        assert_eq!(parse_boolean_setting(off), Some(false), "{off:?}");
    }
    assert_eq!(parse_boolean_setting(""), None);
    assert_eq!(parse_boolean_setting("'true'"), None);
    assert_eq!(parse_boolean_setting("t rue"), None);
}

#[test]
fn the_picture_path_skips_blank_lines_and_decodes_lossily() {
    assert_eq!(macos_picture_path(b"\n\nPicture:\n\n  /a/b.png  \r\n/c"), Some("/a/b.png".to_string()));
    assert_eq!(macos_picture_path(b"Picture: /inline.png"), Some("Picture: /inline.png".to_string()));
    assert_eq!(macos_picture_path(b"Picture:\n"), None);
    assert_eq!(macos_picture_path(b""), None);
    assert_eq!(macos_picture_path(b"Picture:\n /x\xffy\n"), Some("/x\u{fffd}y".to_string()));
}

#[test]
fn the_jpeg_photo_needs_an_even_run_of_hex_digits_after_the_marker() {
    assert_eq!(macos_jpeg_photo(b"dsAttrTypeNative:x\nJPEGPhoto: 0A\n bc\n"), Some(vec![0x0a, 0xbc]));
    assert_eq!(macos_jpeg_photo(b"JPEGPhoto:\n ffd"), None);
    assert_eq!(macos_jpeg_photo(b"JPEGPhoto:\n ffzz"), None);
    assert_eq!(macos_jpeg_photo(b"JPEGPhoto:\n"), None);
    assert_eq!(macos_jpeg_photo(b"XJPEGPhoto: ffd8"), None);
    assert_eq!(macos_jpeg_photo(b"no record"), None);
}

#[test]
fn only_https_avatar_urls_are_downloaded() {
    assert_eq!(
        github_avatar_url(b"  https://avatars.githubusercontent.com/u/1?v=4\n"),
        Some("https://avatars.githubusercontent.com/u/1?v=4".to_string())
    );
    assert_eq!(github_avatar_url(b"http://insecure/x"), None);
    assert_eq!(github_avatar_url(b"gh: not logged in"), None);
    assert_eq!(github_avatar_url(b""), None);
}

#[test]
fn the_termy_link_form_encodes_the_folder() {
    assert_eq!(termy_open_url("/tmp/project +%"), "termy://new?dir=%2Ftmp%2Fproject+%2B%25");
    assert_eq!(termy_open_url("a-b_c.d*9"), "termy://new?dir=a-b_c.d*9");
    assert_eq!(termy_open_url("é"), "termy://new?dir=%C3%A9");
}

#[test]
fn termy_opens_through_its_deep_link() {
    match open_path_in_app("/w s", "com.lassevestergaard.termy") {
        OpenInAppRequest::DeepLink(url) => assert_eq!(url, "termy://new?dir=%2Fw+s"),
        other => panic!("unexpected {other:?}"),
    }
    match open_path_in_app("/w s", "com.microsoft.VSCode") {
        OpenInAppRequest::Folder(path) => assert_eq!(path, "/w s"),
        other => panic!("unexpected {other:?}"),
    }
}

#[test]
fn platform_choices() {
    assert_eq!(primary_shortcut(Platform::MacOs, "⌘K", "Ctrl+K"), "⌘K");
    assert_eq!(primary_shortcut(Platform::Linux, "⌘K", "Ctrl+K"), "Ctrl+K");
    assert!(supports_liquid_glass(Platform::MacOs, 26, false));
    assert!(supports_liquid_glass(Platform::MacOs, 15, true));
    assert!(!supports_liquid_glass(Platform::MacOs, 15, false));
    assert!(!supports_liquid_glass(Platform::Windows, 30, true));
}

#[test]
fn reduce_motion_sources() {
    assert!(linux_reduce_motion_enabled(Some(b"false\n")));
    assert!(!linux_reduce_motion_enabled(Some(b"true\n")));
    assert!(!linux_reduce_motion_enabled(Some(b"\xff")));
    assert!(!linux_reduce_motion_enabled(None));
    assert!(linux_reduce_motion(Some("on"), Some(b"true")));
    assert!(!linux_reduce_motion(Some("0"), Some(b"false")));
    assert!(linux_reduce_motion(Some("maybe"), Some(b"false")));
    assert_eq!(windows_reduce_motion(1, 0), Some(true));
    assert_eq!(windows_reduce_motion(1, 1), Some(false));
    assert_eq!(windows_reduce_motion(0, 0), None);
}

#[test]
fn font_smoothing_writes_the_bundle_default() {
    assert_eq!(
        font_smoothing_defaults_args(true, false),
        vec!["write", "sh.insulator", "AppleFontSmoothing", "-int", "1"]
    );
    assert_eq!(font_smoothing_defaults_args(false, true)[1], "sh.insulator.dev");
    assert_eq!(font_smoothing_defaults_args(false, true)[4], "0");
}

#[test]
fn the_first_resolved_bundle_of_each_installed_app_is_used() {
    let catalog = insulator::platform::open_in_catalog();
    assert_eq!(catalog.len(), 12);
    assert_eq!(catalog[2].id, "zed");
    assert_eq!(catalog[2].bundle_ids, vec!["dev.zed.Zed", "dev.zed.Zed-Preview"]);
    assert_eq!(catalog[11].label, "Android Studio");
    let resolved: Vec<Vec<bool>> = catalog
        .iter()
        .map(|app| match app.id {
            "zed" => vec![false, true],
            "finder" => vec![true],
            "warp" => vec![true, true],
            _ => vec![false; app.bundle_ids.len()],
        })
        .collect();
    assert_eq!(insulator::platform::detect_open_in_apps(&resolved), vec![(2, 1), (3, 0), (9, 0)]);
    assert!(insulator::platform::detect_open_in_apps(&[]).is_empty());
}

#[test]
fn upper_casing_or_padding_a_setting_keeps_its_meaning() {
    for value in ["1", "true", "Yes", "on", "0", "FALSE", "no", "Off", "maybe", "", " tr ue "] {
        let expected = insulator::platform::parse_boolean_setting(value);
        assert_eq!(insulator::platform::parse_boolean_setting(&value.to_ascii_uppercase()), expected);
        assert_eq!(insulator::platform::parse_boolean_setting(&format!(" {value}\n")), expected);
        assert_eq!(insulator::platform::parse_boolean_setting(&format!("\t\u{a0}{value} \u{3000}")), expected);
    }
}

#[test]
fn a_photo_record_reads_back_its_bytes() {
    let bytes: Vec<u8> = vec![0xff, 0xd8, 0x00, 0x7a, 0x10, 0xab, 0xcd];
    let lower: String = bytes.iter().map(|b| format!("{b:02x}")).collect();
    let upper = lower.to_uppercase();
    let split = format!("{} {}\n {}", &lower[..3], &lower[3..8], &upper[8..]);
    for h in [lower.clone(), upper.clone(), split] {
        let record = format!("JPEGPhoto:\n {h}\n");
        assert_eq!(insulator::platform::macos_jpeg_photo(record.as_bytes()), Some(bytes.clone()));
    }
}
