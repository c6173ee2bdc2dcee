//! The command and file indexes the composer's autocompletion draws from,
//! and when they are (re)discovered.
//!
//! Discovery runs on the daemon in the background; the indexes drawn on a
//! frame are only ever the ones already delivered. While a discovery is in
//! flight for a new key, nothing that belongs to another key is drawn.

use vstd::prelude::*;
use crate::autocomplete::{FileEntry, ReferenceEntry, SlashCommand};
use crate::text::str_equal;

verus! {

/// The coding agents the composer can talk to.
#[derive(Clone, Copy, Debug, PartialEq, Eq, Structural)]
pub enum ProviderKind {
    Amp,
    ClaudeCode,
    Codex,
    Cursor,
    Fx,
    Grok,
    Kimi,
    OpenCode,
    Pi,
}

/// What a command index is discovered for: the agent, the project, and the
/// agent binary the user configured in place of the default one.
#[derive(Debug)]
pub struct CommandIndexKey {
    pub provider: ProviderKind,
    pub project_path: String,
    pub binary_override: Option<String>,
}

pub open spec fn same_opt_text(a: Option<String>, b: Option<String>) -> bool {
    match (a, b) {
        (None, None) => true,
        (Some(x), Some(y)) => x@ == y@,
        _ => false,
    }
}

/// Whether two keys name the same index.
pub open spec fn same_key(a: CommandIndexKey, b: CommandIndexKey) -> bool {
    a.provider == b.provider && a.project_path@ == b.project_path@ && same_opt_text(a.binary_override, b.binary_override)
}

fn same_opt_text_exec(a: &Option<String>, b: &Option<String>) -> (r: bool)
    ensures
        r == same_opt_text(*a, *b),
{
    match (a, b) {
        (None, None) => true,
        (Some(x), Some(y)) => str_equal(x.as_str(), y.as_str()),
        _ => false,
    }
}

fn same_key_exec(a: &CommandIndexKey, b: &CommandIndexKey) -> (r: bool)
    ensures
        r == same_key(*a, *b),
{
    a.provider == b.provider && str_equal(a.project_path.as_str(), b.project_path.as_str())
        && same_opt_text_exec(&a.binary_override, &b.binary_override)
}

/// The provider whose commands are offered: the selected chat's, or the
/// last one used when no chat is selected.
pub fn composer_provider(selected: Option<ProviderKind>, last_provider: ProviderKind) -> (r: ProviderKind)
    ensures
        r == (match selected {
            Some(p) => p,
            None => last_provider,
        }),
{
    match selected {
        Some(p) => p,
        None => last_provider,
    }
}

/// The key of the command index for the selected workspace; also the key
/// that invalidating the composer's sources drops from the cache.
pub fn command_index_key(
    project_path: String,
    selected: Option<ProviderKind>,
    last_provider: ProviderKind,
    binary_override: Option<String>,
) -> (r: CommandIndexKey)
    ensures
        r.provider == (match selected {
            Some(p) => p,
            None => last_provider,
        }),
        r.project_path == project_path,
        r.binary_override == binary_override,
{
    CommandIndexKey { provider: composer_provider(selected, last_provider), project_path, binary_override }
}

/// Where a cached discovery stands.
#[derive(Debug)]
pub enum QueryStatus<T> {
    /// Delivered.
    Ready(T),
    /// Requested and in flight.
    Pending,
    /// Never requested, or invalidated: a discovery must be started.
    Missing,
}

/// The indexes drawn by the popup.
#[derive(Debug)]
pub struct ComposerSources {
    pub commands: Vec<SlashCommand>,
    pub command_key: Option<CommandIndexKey>,
    pub commands_loading: bool,
    pub files: Vec<FileEntry>,
    pub references: Vec<ReferenceEntry>,
    pub files_path: Option<String>,
    pub files_loading: bool,
}

/// The discoveries a refresh starts.
#[derive(Clone, Copy, Debug, PartialEq, Eq, Structural)]
pub struct RefreshActions {
    pub discover_commands: bool,
    pub list_files: bool,
}

/// The effect of refreshing `old` into `new` for `key`.
pub open spec fn refreshed(
    old: ComposerSources,
    new: ComposerSources,
    key: CommandIndexKey,
    commands: QueryStatus<Vec<SlashCommand>>,
    files: QueryStatus<(Vec<FileEntry>, Vec<ReferenceEntry>)>,
) -> bool {
    &&& commands matches QueryStatus::Ready(c) ==> {
        &&& new.commands == c
        &&& new.command_key matches Some(k) && same_key(k, key)
        &&& !new.commands_loading
    }
    &&& !(commands is Ready) ==> {
        &&& new.commands_loading
        &&& (old.command_key matches Some(k) && same_key(k, key)) ==> {
            &&& new.commands == old.commands
            &&& new.command_key == old.command_key
        }
        &&& !(old.command_key matches Some(k) && same_key(k, key)) ==> {
            &&& new.commands@.len() == 0
            &&& new.command_key is None
        }
    }
    &&& files matches QueryStatus::Ready(f) ==> {
        &&& new.files == f.0
        &&& (key.provider is Pi ==> new.references == f.1)
        &&& (!(key.provider is Pi) ==> new.references@.len() == 0)
        &&& new.files_path matches Some(p) && p == key.project_path
        &&& !new.files_loading
    }
    &&& !(files is Ready) ==> {
        &&& new.files_loading
        &&& (old.files_path matches Some(p) && p@ == key.project_path@) ==> {
            &&& new.files == old.files
            &&& new.references == old.references
            &&& new.files_path == old.files_path
        }
        &&& !(old.files_path matches Some(p) && p@ == key.project_path@) ==> {
            &&& new.files@.len() == 0
            &&& new.references@.len() == 0
            &&& new.files_path is None
        }
    }
}

impl ComposerSources {
    /// Nothing drawn is unkeyed: an index without a key is empty.
    pub open spec fn well_formed(self) -> bool {
        &&& self.command_key is None ==> self.commands@.len() == 0
        &&& self.files_path is None ==> self.files@.len() == 0 && self.references@.len() == 0
    }

    pub fn new() -> (r: Self)
        ensures
            r.well_formed(),
            r.commands@.len() == 0,
            r.command_key is None,
            !r.commands_loading,
            r.files@.len() == 0,
            r.references@.len() == 0,
            r.files_path is None,
            !r.files_loading,
    {
        ComposerSources {
            commands: Vec::new(),
            command_key: None,
            commands_loading: false,
            files: Vec::new(),
            references: Vec::new(),
            files_path: None,
            files_loading: false,
        }
    }

    /// No workspace is selected: nothing is drawn and nothing loads.
    pub fn clear(&mut self)
        ensures
            final(self).well_formed(),
            final(self).commands@.len() == 0,
            final(self).command_key is None,
            !final(self).commands_loading,
            final(self).files@.len() == 0,
            final(self).references@.len() == 0,
            final(self).files_path is None,
            !final(self).files_loading,
    {
        self.commands = Vec::new();
        self.command_key = None;
        self.commands_loading = false;
        self.files = Vec::new();
        self.references = Vec::new();
        self.files_path = None;
        self.files_loading = false;
    }

    /// Refresh the drawn indexes for the workspace at `key.project_path`.
    /// `commands` is the cached command discovery for `key`, already merged
    /// with the commands the selected chat reported; `files` is the cached
    /// file listing for the workspace (its files and its Pi references).
    /// References are drawn for the Pi agent only. A delivered index is
    /// drawn under its key; while one is pending, the index of another key
    /// is not drawn. A missing index starts its discovery.
    pub fn refresh(
        &mut self,
        key: CommandIndexKey,
        commands: QueryStatus<Vec<SlashCommand>>,
        files: QueryStatus<(Vec<FileEntry>, Vec<ReferenceEntry>)>,
    ) -> (r: RefreshActions)
        ensures
            final(self).well_formed(),
            r.discover_commands == (commands is Missing),
            r.list_files == (files is Missing),
            refreshed(*old(self), *final(self), key, commands, files),
    {
        let discover_commands = matches!(commands, QueryStatus::Missing);
        let list_files = matches!(files, QueryStatus::Missing);
        let path_matches = match &self.files_path {
            Some(p) => str_equal(p.as_str(), key.project_path.as_str()),
            None => false,
        };
        let is_pi = matches!(key.provider, ProviderKind::Pi);
        let project_path = key.project_path.clone();
        match commands {
            QueryStatus::Ready(c) => {
                self.commands = c;
                self.command_key = Some(key);
                self.commands_loading = false;
            },
            _ => {
                self.commands_loading = true;
                let same = match &self.command_key {
                    Some(k) => same_key_exec(k, &key),
                    None => false,
                };
                if !same {
                    self.commands = Vec::new();
                    self.command_key = None;
                }
            },
        }
        match files {
            QueryStatus::Ready((entries, references)) => {
                self.files = entries;
                self.references = if is_pi { references } else { Vec::new() };
                self.files_path = Some(project_path);
                self.files_loading = false;
            },
            _ => {
                self.files_loading = true;
                if !path_matches {
                    self.files = Vec::new();
                    self.references = Vec::new();
                    self.files_path = None;
                }
            },
        }
        RefreshActions { discover_commands, list_files }
    }
}

/// Whatever the caches report, after a refresh the drawn indexes belong to
/// the refreshed key or are empty: another agent's or another project's
/// list is never drawn for the current one; and references are only drawn
/// for the Pi agent once delivered.
pub proof fn law_drawn_indexes_belong_to_the_key(
    old: ComposerSources,
    new: ComposerSources,
    key: CommandIndexKey,
    commands: QueryStatus<Vec<SlashCommand>>,
    files: QueryStatus<(Vec<FileEntry>, Vec<ReferenceEntry>)>,
)
    requires
        old.well_formed(),
        refreshed(old, new, key, commands, files),
    ensures
        new.commands@.len() > 0 ==> (new.command_key matches Some(k) && same_key(k, key)),
        new.files@.len() + new.references@.len() > 0 ==> (new.files_path matches Some(p) && p@ == key.project_path@),
        files is Ready && !(key.provider is Pi) ==> new.references@.len() == 0,
{
}

/// A modification time: seconds and nanoseconds since the epoch.
#[derive(Clone, Copy, Debug, PartialEq, Eq, Structural)]
pub struct Timestamp {
    pub secs: u64,
    pub nanos: u32,
}

/// The size and modification time of one Pi reference file; `None` where
/// the file or the value is missing.
#[derive(Clone, Copy, Debug, PartialEq, Eq, Structural)]
pub struct FileFingerprint {
    pub modified: Option<Timestamp>,
    pub length: Option<u64>,
}

/// The fingerprints of the global and the project Pi reference files.
#[derive(Clone, Copy, Debug, PartialEq, Eq, Structural)]
pub struct ReferenceFingerprint {
    pub global: FileFingerprint,
    pub project: FileFingerprint,
}

/// The Pi reference watch: the workspace and fingerprint seen last.
#[derive(Debug)]
pub struct PiReferenceWatch {
    pub previous: Option<(String, ReferenceFingerprint)>,
}

impl PiReferenceWatch {
    pub fn new() -> (r: Self)
        ensures
            r.previous is None,
    {
        PiReferenceWatch { previous: None }
    }

    /// One poll of the watch. `root` is the selected workspace while a Pi
    /// chat is selected, `None` otherwise. The composer's sources are
    /// invalidated (the result is `true`) only when the same workspace's
    /// reference files changed since the previous poll.
    pub fn observe(&mut self, root: Option<String>, fingerprint: ReferenceFingerprint) -> (r: bool)
        ensures
            root is None ==> !r && final(self).previous is None,
            root matches Some(w) ==> {
                &&& final(self).previous matches Some(prev) && prev.0 == w && prev.1 == fingerprint
                &&& r == (old(self).previous matches Some(p) && p.0@ == w@ && p.1 != fingerprint)
            },
    {
        match root {
            None => {
                self.previous = None;
                false
            },
            Some(root) => {
                let changed = match &self.previous {
                    Some((previous_root, previous_fingerprint)) => str_equal(previous_root.as_str(), root.as_str())
                        && *previous_fingerprint != fingerprint,
                    None => false,
                };
                self.previous = Some((root, fingerprint));
                changed
            },
        }
    }
}

} // verus!
