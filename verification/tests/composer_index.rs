use insulator::autocomplete::{FileEntry, ReferenceEntry, SlashCommand};
use insulator::composer_sources::{
    command_index_key, CommandIndexKey, ComposerSources, FileFingerprint, PiReferenceWatch,
    ProviderKind, QueryStatus, ReferenceFingerprint, Timestamp,
};

fn key(provider: ProviderKind, path: &str) -> CommandIndexKey {
    command_index_key(path.to_string(), Some(provider), ProviderKind::Codex, None)
}

fn command(name: &str) -> SlashCommand {
    SlashCommand { name: name.into(), description: String::new(), argument_hint: None, composer_text: format!("/{name}") }
}

fn file(path: &str) -> FileEntry {
    FileEntry { path: path.into(), is_dir: false }
}

fn reference(alias: &str) -> ReferenceEntry {
    ReferenceEntry { alias: alias.into(), description: None }
}

#[test]
fn the_key_uses_the_last_provider_without_a_chat() {
    let k = command_index_key("/p".into(), None, ProviderKind::Amp, Some("/bin/amp".into()));
    assert_eq!(k.provider, ProviderKind::Amp);
    assert_eq!(k.binary_override.as_deref(), Some("/bin/amp"));
}

#[test]
fn delivered_indexes_are_drawn_under_their_key() {
    let mut sources = ComposerSources::new();
    let actions = sources.refresh(
        key(ProviderKind::Pi, "/p"),
        QueryStatus::Ready(vec![command("init")]),
        QueryStatus::Ready((vec![file("a.rs")], vec![reference("effect")])),
    );
    assert!(!actions.discover_commands && !actions.list_files);
    assert_eq!(sources.commands.len(), 1);
    assert!(!sources.commands_loading);
    assert_eq!(sources.references.len(), 1);
    assert_eq!(sources.files_path.as_deref(), Some("/p"));

    // References belong to the Pi agent only.
    sources.refresh(
        key(ProviderKind::Codex, "/p"),
        QueryStatus::Ready(vec![]),
        QueryStatus::Ready((vec![file("a.rs")], vec![reference("effect")])),
    );
    assert!(sources.references.is_empty());
    assert_eq!(sources.files.len(), 1);
}

#[test]
fn a_pending_index_for_another_key_is_not_drawn() {
    let mut sources = ComposerSources::new();
    sources.refresh(
        key(ProviderKind::Codex, "/p"),
        QueryStatus::Ready(vec![command("init")]),
        QueryStatus::Ready((vec![file("a.rs")], vec![])),
    );
    // Same key, still loading a refresh: the delivered lists stay.
    let actions = sources.refresh(key(ProviderKind::Codex, "/p"), QueryStatus::Pending, QueryStatus::Pending);
    assert!(!actions.discover_commands);
    assert!(sources.commands_loading && sources.files_loading);
    assert_eq!(sources.commands.len(), 1);
    assert_eq!(sources.files.len(), 1);
    // Another provider and another project: nothing of the old ones is drawn.
    let actions = sources.refresh(key(ProviderKind::Amp, "/q"), QueryStatus::Missing, QueryStatus::Missing);
    assert!(actions.discover_commands && actions.list_files);
    assert!(sources.commands.is_empty() && sources.command_key.is_none());
    assert!(sources.files.is_empty() && sources.files_path.is_none());
    sources.clear();
    assert!(!sources.commands_loading && !sources.files_loading);
}

fn fingerprint(length: u64) -> ReferenceFingerprint {
    let file = FileFingerprint { modified: Some(Timestamp { secs: 10, nanos: 0 }), length: Some(length) };
    ReferenceFingerprint { global: FileFingerprint { modified: None, length: None }, project: file }
}

#[test]
fn the_pi_watch_reports_changes_of_the_same_workspace_only() {
    let mut watch = PiReferenceWatch::new();
    assert!(!watch.observe(Some("/p".into()), fingerprint(1)));
    assert!(!watch.observe(Some("/p".into()), fingerprint(1)));
    assert!(watch.observe(Some("/p".into()), fingerprint(2)));
    assert!(!watch.observe(Some("/q".into()), fingerprint(3)));
    assert!(!watch.observe(None, fingerprint(4)));
    assert!(watch.previous.is_none());
    assert!(!watch.observe(Some("/q".into()), fingerprint(5)));
}
