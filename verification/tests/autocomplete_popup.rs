use insulator::autocomplete::{
    command_rows, mention_rows, popup_shown, selectable_row_indexes, AutocompleteRow,
    AutocompleteUi, FileEntry, ReferenceEntry, Scored, SlashCommand, Trigger, TriggerKind,
};

fn trigger(kind: TriggerKind, query: &str, start: usize, end: usize) -> Trigger {
    Trigger { kind, query: query.to_string(), start, end }
}

fn reference(alias: &str) -> Scored<ReferenceEntry> {
    Scored { positions: vec![], item: ReferenceEntry { alias: alias.into(), description: None } }
}

fn file(path: &str) -> Scored<FileEntry> {
    Scored { positions: vec![0], item: FileEntry { path: path.into(), is_dir: false } }
}

fn command(name: &str, text: &str) -> Scored<SlashCommand> {
    Scored {
        positions: vec![],
        item: SlashCommand {
            name: name.into(),
            description: "desc".into(),
            argument_hint: None,
            composer_text: text.into(),
        },
    }
}

fn header_title(row: &AutocompleteRow) -> Option<&str> {
    match row {
        AutocompleteRow::Header(title) => Some(title.as_str()),
        _ => None,
    }
}

#[test]
fn mention_rows_put_each_section_under_its_header() {
    let rows = mention_rows(vec![reference("effect")], vec![file("a.rs"), file("src/b.rs")]);
    assert_eq!(rows.len(), 5);
    assert_eq!(header_title(&rows[0]), Some("References"));
    assert_eq!(header_title(&rows[2]), Some("Files"));
    assert!(matches!(&rows[1], AutocompleteRow::Reference(s) if s.item.alias == "effect"));
    assert!(matches!(&rows[4], AutocompleteRow::File(s) if s.item.path == "src/b.rs"));
    assert_eq!(selectable_row_indexes(&rows), vec![1, 3, 4]);

    let files_only = mention_rows(vec![], vec![file("x")]);
    assert_eq!(files_only.len(), 2);
    assert_eq!(header_title(&files_only[0]), Some("Files"));

    assert!(mention_rows(vec![], vec![]).is_empty());
}

#[test]
fn command_rows_keep_the_filter_order() {
    let rows = command_rows(vec![command("compact", "/compact"), command("init", "/init")]);
    assert_eq!(rows.len(), 2);
    assert!(matches!(&rows[1], AutocompleteRow::Command(s) if s.item.name == "init"));
}

#[test]
fn a_new_token_resets_the_cursor_and_the_dismissal() {
    let mut ui = AutocompleteUi::new();
    let shown = ui.composer_trigger(Some(trigger(TriggerKind::File, "sr", 0, 3)));
    assert_eq!(shown.map(|t| t.query), Some("sr".to_string()));
    assert_eq!(ui.scroll_target, Some(0));
    ui.highlight = 4;
    ui.scroll_target = Some(3);
    // The same token keeps the cursor.
    assert!(ui.composer_trigger(Some(trigger(TriggerKind::File, "sr", 0, 3))).is_some());
    assert_eq!(ui.highlight, 4);
    assert_eq!(ui.scroll_target, Some(3));
    // Escape hides the popup for this token.
    ui.dismiss_autocomplete();
    assert!(ui.composer_trigger(Some(trigger(TriggerKind::File, "sr", 0, 3))).is_none());
    // Typing one more character makes a new token.
    let shown = ui.composer_trigger(Some(trigger(TriggerKind::File, "src", 0, 4)));
    assert!(shown.is_some());
    assert_eq!(ui.highlight, 0);
    assert!(!ui.dismissed);
    // Losing focus is a change of token too.
    assert!(ui.composer_trigger(None).is_none());
    assert!(ui.token.is_none());
}

#[test]
fn accepting_writes_the_row_over_the_token() {
    let rows = mention_rows(vec![reference("effect")], vec![file("src/main.rs")]);
    let mut ui = AutocompleteUi::new();
    let token = trigger(TriggerKind::File, "ma", 6, 9);

    // The keyboard takes the first selectable row when the cursor is on a header.
    let edit = ui.accept_autocomplete(&token, &rows, None).expect("a row is accepted");
    assert_eq!((edit.start, edit.end), (6, 9));
    assert_eq!(edit.text, "@effect ");
    assert!(!edit.is_command);

    ui.highlight = 3;
    let edit = ui.accept_autocomplete(&token, &rows, None).unwrap();
    assert_eq!(edit.text, "@src/main.rs ");

    // A click takes the clicked row; a header or a row past the end does nothing.
    assert!(ui.accept_autocomplete(&token, &rows, Some(2)).is_none());
    assert!(ui.accept_autocomplete(&token, &rows, Some(9)).is_none());

    let commands = command_rows(vec![command("compact", "/compact")]);
    let edit = ui.accept_autocomplete(&trigger(TriggerKind::Command, "re", 0, 3), &commands, Some(0)).unwrap();
    assert_eq!(edit.text, "/compact ");
    assert!(edit.is_command);
}

#[test]
fn the_cursor_moves_over_selectable_rows_only() {
    let rows = mention_rows(vec![reference("a"), reference("b")], vec![file("c")]);
    let selectable = selectable_row_indexes(&rows);
    assert_eq!(selectable, vec![1, 2, 4]);
    let mut ui = AutocompleteUi::new();
    ui.highlight = 2;
    assert_eq!(ui.highlight_position(&selectable), 1);
    ui.move_autocomplete_highlight(&rows, &selectable, 2, "down");
    assert_eq!(ui.highlight, 4);
    assert_eq!(ui.scroll_target, Some(4));
    ui.move_autocomplete_highlight(&rows, &selectable, 2, "up");
    assert_eq!(ui.scroll_target, Some(3));
    ui.highlight = 3;
    assert_eq!(ui.highlight_position(&selectable), 0);
    assert_eq!(ui.reconcile_highlight(&selectable), 1);
    assert_eq!(ui.highlight, 1);
    assert_eq!(ui.reconcile_highlight(&selectable), 1);
    assert_eq!(ui.reconcile_highlight(&[]), 0);
}

#[test]
fn the_popup_shows_rows_or_loading() {
    assert!(popup_shown(3, false));
    assert!(popup_shown(0, true));
    assert!(!popup_shown(0, false));
}
