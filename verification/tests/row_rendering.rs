use insulator::autocomplete::{file_row_label, matched_runs, TextSpan};
use insulator::project_dialog::{clone_button_label, rename_dialog_labels, CloneStage, RenameTarget};

fn span(len: usize, accent: bool) -> TextSpan {
    TextSpan { len, accent }
}

#[test]
fn runs_tile_the_text() {
    assert_eq!(
        matched_runs(10, &[(1, 3), (3, 4), (7, 9)]),
        vec![span(1, false), span(2, true), span(1, true), span(3, false), span(2, true), span(1, false)]
    );
    assert_eq!(matched_runs(4, &[]), vec![span(4, false)]);
    assert_eq!(matched_runs(3, &[(0, 3)]), vec![span(3, true)]);
    assert_eq!(matched_runs(0, &[]), Vec::<TextSpan>::new());
    let total: usize = matched_runs(12, &[(2, 5), (8, 12)]).iter().map(|s| s.len).sum();
    assert_eq!(total, 12);
}

#[test]
fn file_rows_show_the_name_then_the_parent() {
    assert_eq!(file_row_label("src/app/main.rs"), ("main.rs".to_string(), "src/app".to_string(), 8));
    assert_eq!(file_row_label("README.md"), ("README.md".to_string(), String::new(), 0));
    assert_eq!(file_row_label("src/app/"), ("app/".to_string(), "src".to_string(), 4));
    assert_eq!(file_row_label("/x"), ("x".to_string(), String::new(), 1));
    assert_eq!(file_row_label("été/ü.txt"), ("ü.txt".to_string(), "été".to_string(), 4));
}

#[test]
fn dialog_texts() {
    assert_eq!(rename_dialog_labels(RenameTarget::Project(1)), ("Rename project", "Project name"));
    assert_eq!(rename_dialog_labels(RenameTarget::Session(1)), ("Rename chat", "Chat title"));
    let translate = |key: &str| if key == "project.clone" { "Clone".to_string() } else { key.to_string() };
    assert_eq!(clone_button_label(CloneStage::Fetching, translate), "Fetching repository…");
    assert_eq!(clone_button_label(CloneStage::Cloning, translate), "Cloning repository…");
    assert_eq!(clone_button_label(CloneStage::Idle, translate), "Clone");
}
