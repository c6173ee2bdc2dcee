use std::borrow::Cow;
use std::path::Path;

use insulator::autocomplete::{
    scroll_target_for_row_navigation, selectable_row_indexes, AutocompleteRow, FileEntry,
    ReferenceEntry, Scored,
};
use insulator::platform::{
    macos_jpeg_photo, macos_picture_path, parse_boolean_setting, termy_open_url,
};

#[test]
fn scroll_target_keeps_headers_visible() {
    let rows = vec![
        AutocompleteRow::Header("References".into()),
        AutocompleteRow::Reference(Scored {
            positions: vec![],
            item: ReferenceEntry {
                alias: "effect".into(),
                description: Some("Effect-TS".into()),
            },
        }),
        AutocompleteRow::Reference(Scored {
            positions: vec![],
            item: ReferenceEntry {
                alias: "opencode".into(),
                description: Some("tui".into()),
            },
        }),
        AutocompleteRow::Header("Files".into()),
        AutocompleteRow::File(Scored {
            positions: vec![],
            item: FileEntry {
                path: ".gitignore".into(),
                is_dir: false,
            },
        }),
    ];
    let selectable = selectable_row_indexes(&rows);
    assert_eq!(selectable, vec![1, 2, 4]);

    // Navigating to first item (pos 0) always scrolls to 0 (top header)
    assert_eq!(scroll_target_for_row_navigation(&rows, &selectable, 0, "up"), 0);
    assert_eq!(scroll_target_for_row_navigation(&rows, &selectable, 0, "down"), 0);

    // Navigating down to pos 1 (opencode) scrolls to 2
    assert_eq!(scroll_target_for_row_navigation(&rows, &selectable, 1, "down"), 2);

    // Navigating down to pos 2 (.gitignore) scrolls to 4
    assert_eq!(scroll_target_for_row_navigation(&rows, &selectable, 2, "down"), 4);

    // Navigating up to pos 2 (.gitignore, preceded by "Files" header at index 3) scrolls to 3
    assert_eq!(scroll_target_for_row_navigation(&rows, &selectable, 2, "up"), 3);

    // Navigating up to pos 1 (opencode, preceded by "effect" at index 1) scrolls to 2
    assert_eq!(scroll_target_for_row_navigation(&rows, &selectable, 1, "up"), 2);

    // Navigating up to pos 0 (effect, preceded by "References" header at index 0) scrolls to 0
    assert_eq!(scroll_target_for_row_navigation(&rows, &selectable, 0, "up"), 0);
}

#[test]
fn boolean_desktop_settings_are_parsed_case_insensitively() {
    assert_eq!(parse_boolean_setting(" true\n"), Some(true));
    assert_eq!(parse_boolean_setting("OFF"), Some(false));
    assert_eq!(parse_boolean_setting("default"), None);
}

#[test]
fn login_picture_path_accepts_dscl_multiline_output() {
    assert_eq!(
        macos_picture_path(b"Picture:\n /Library/User Pictures/Animals/Eagle.heic\n"),
        Some("/Library/User Pictures/Animals/Eagle.heic".into())
    );
}

#[test]
fn login_jpeg_photo_decodes_dscl_hex_words() {
    assert_eq!(
        macos_jpeg_photo(b"JPEGPhoto:\n ffd8 ffe0 0010\n"),
        Some(vec![0xff, 0xd8, 0xff, 0xe0, 0x00, 0x10])
    );
}

#[test]
fn termy_projects_use_the_new_tab_deeplink() {
    let dir = Path::new("/tmp/project +%").to_str().expect("the path is UTF-8");
    let url = url::Url::parse(&termy_open_url(dir)).expect("Termy deeplink should be valid");

    assert_eq!(url.scheme(), "termy");
    assert_eq!(url.host_str(), Some("new"));
    assert_eq!(
        url.query_pairs().collect::<Vec<_>>(),
        vec![(Cow::Borrowed("dir"), Cow::Borrowed("/tmp/project +%"))]
    );
}
