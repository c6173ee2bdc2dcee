//! The project source chooser with its GitHub clone dialog, and the dialog
//! that renames a project or a chat.
//!
//! The dialogs' text fields are held here as their current text; the
//! desktop shell keeps them in sync with the drawn inputs.

use vstd::prelude::*;
use crate::text::{owned, trim, trimmed};

verus! {

/// Where a GitHub clone stands.
#[derive(Clone, Copy, Debug, PartialEq, Eq, Structural)]
pub enum CloneStage {
    Idle,
    Fetching,
    Cloning,
}

/// A repository listed by `gh repo list`.
#[derive(Debug)]
pub struct RecentRepo {
    pub name_with_owner: String,
    pub description: Option<String>,
}

/// The message a dialog shows under its fields.
#[derive(Debug)]
pub enum DialogError {
    /// The repository URL is blank.
    GithubUrlRequired,
    /// The clone location is blank.
    CloneLocationRequired,
    /// The clone failed with this message.
    CloneFailed(String),
}

/// The GitHub clone dialog.
#[derive(Debug)]
pub struct GithubDialog {
    pub url: String,
    pub location: String,
    pub stage: CloneStage,
    pub error: Option<DialogError>,
    pub recent_repos: Vec<RecentRepo>,
    pub selected_repo: Option<String>,
}

/// The project dialog: the choice of source, or the GitHub clone form.
#[derive(Debug)]
pub enum ProjectDialog {
    Sources,
    Github(GithubDialog),
}

/// What the rename dialog renames.
#[derive(Clone, Copy, Debug, PartialEq, Eq, Structural)]
pub enum RenameTarget {
    Project(u128),
    Session(u128),
}

/// The rename dialog and the text of its input.
#[derive(Debug)]
pub struct RenameDialog {
    pub target: RenameTarget,
    pub input: String,
}

#[derive(Debug)]
pub struct Project {
    pub id: u128,
    pub name: String,
}

/// A chat. `title` is the user's own title; `auto_title` the generated one.
#[derive(Debug)]
pub struct Session {
    pub id: u128,
    pub title: String,
    pub auto_title: Option<String>,
}

/// The clone the daemon is asked to perform: the trimmed URL into the
/// trimmed destination, which is created first when missing.
#[derive(Debug)]
pub struct CloneRequest {
    pub url: String,
    pub destination: String,
}

/// The dialogs and the records they act on.
#[derive(Debug)]
pub struct Waku {
    pub project_dialog: Option<ProjectDialog>,
    pub rename_dialog: Option<RenameDialog>,
    pub projects: Vec<Project>,
    pub sessions: Vec<Session>,
}

/// The URL of a GitHub repository named `owner/name`.
pub open spec fn repo_clone_url(name_with_owner: Seq<char>) -> Seq<char> {
    "https://github.com/"@ + name_with_owner + ".git"@
}

/// The index of the first project with id `id`, if any.
pub open spec fn project_index(projects: Seq<Project>, id: u128) -> Option<int> {
    if exists|k: int| 0 <= k < projects.len() && projects[k].id == id {
        Some(choose|k: int| 0 <= k < projects.len() && projects[k].id == id && forall|j: int| 0 <= j < k ==> projects[j].id != id)
    } else {
        None
    }
}

/// The index of the first chat with id `id`, if any.
pub open spec fn session_index(sessions: Seq<Session>, id: u128) -> Option<int> {
    if exists|k: int| 0 <= k < sessions.len() && sessions[k].id == id {
        Some(choose|k: int| 0 <= k < sessions.len() && sessions[k].id == id && forall|j: int| 0 <= j < k ==> sessions[j].id != id)
    } else {
        None
    }
}

fn find_project(projects: &Vec<Project>, id: u128) -> (r: Option<usize>)
    ensures
        r matches Some(k) ==> project_index(projects@, id) == Some(k as int) && k < projects@.len(),
        r is None ==> project_index(projects@, id) is None,
{
    let mut k: usize = 0;
    while k < projects.len()
        invariant
            k <= projects@.len(),
            forall|j: int| 0 <= j < k ==> projects@[j].id != id,
        decreases projects.len() - k,
    {
        if projects[k].id == id {
            proof {
                let c = choose|c: int| 0 <= c < projects@.len() && projects@[c].id == id && forall|j: int| 0 <= j < c ==> projects@[j].id != id;
                assert(0 <= k < projects@.len() && projects@[k as int].id == id);
                if c < k {
                    assert(projects@[c].id != id);
                }
                if c > k {
                    assert(projects@[k as int].id != id);
                }
            }
            return Some(k);
        }
        k = k + 1;
    }
    None
}

fn find_session(sessions: &Vec<Session>, id: u128) -> (r: Option<usize>)
    ensures
        r matches Some(k) ==> session_index(sessions@, id) == Some(k as int) && k < sessions@.len(),
        r is None ==> session_index(sessions@, id) is None,
{
    let mut k: usize = 0;
    while k < sessions.len()
        invariant
            k <= sessions@.len(),
            forall|j: int| 0 <= j < k ==> sessions@[j].id != id,
        decreases sessions.len() - k,
    {
        if sessions[k].id == id {
            proof {
                let c = choose|c: int| 0 <= c < sessions@.len() && sessions@[c].id == id && forall|j: int| 0 <= j < c ==> sessions@[j].id != id;
                assert(0 <= k < sessions@.len() && sessions@[k as int].id == id);
                if c < k {
                    assert(sessions@[c].id != id);
                }
                if c > k {
                    assert(sessions@[k as int].id != id);
                }
            }
            return Some(k);
        }
        k = k + 1;
    }
    None
}

/// Whether the GitHub dialog can start a clone: no clone is running and
/// the URL is not blank.
pub open spec fn can_clone(d: GithubDialog) -> bool {
    d.stage is Idle && trim(d.url@).len() > 0
}

impl Waku {
    pub fn new(projects: Vec<Project>, sessions: Vec<Session>) -> (r: Self)
        ensures
            r.project_dialog is None,
            r.rename_dialog is None,
            r.projects == projects,
            r.sessions == sessions,
    {
        Waku { project_dialog: None, rename_dialog: None, projects, sessions }
    }

    /// Show the choice between a local folder and a GitHub clone.
    pub fn open_project_source_dialog(&mut self)
        ensures
            final(self).project_dialog matches Some(ProjectDialog::Sources),
            final(self).rename_dialog == old(self).rename_dialog,
            final(self).projects == old(self).projects,
            final(self).sessions == old(self).sessions,
    {
        self.project_dialog = Some(ProjectDialog::Sources);
    }

    /// Show the GitHub clone form, with an empty URL and the default clone
    /// location.
    pub fn open_github_project_dialog(&mut self, default_location: String)
        ensures
            final(self).project_dialog matches Some(ProjectDialog::Github(d)) && {
                &&& d.url@.len() == 0
                &&& d.location == default_location
                &&& d.stage is Idle
                &&& d.error is None
                &&& d.recent_repos@.len() == 0
                &&& d.selected_repo is None
            },
            final(self).rename_dialog == old(self).rename_dialog,
            final(self).projects == old(self).projects,
            final(self).sessions == old(self).sessions,
    {
        self.project_dialog = Some(ProjectDialog::Github(GithubDialog {
            url: String::new(),
            location: default_location,
            stage: CloneStage::Idle,
            error: None,
            recent_repos: Vec::new(),
            selected_repo: None,
        }));
    }

    /// The repositories `gh` listed arrive; they are shown only if the
    /// GitHub form is still open.
    pub fn set_recent_repos(&mut self, repos: Vec<RecentRepo>)
        ensures
            old(self).project_dialog matches Some(ProjectDialog::Github(d0)) ==>
                (final(self).project_dialog matches Some(ProjectDialog::Github(d1)) && {
                    &&& d1.recent_repos == repos
                    &&& d1.url == d0.url
                    &&& d1.location == d0.location
                    &&& d1.stage == d0.stage
                    &&& d1.error == d0.error
                    &&& d1.selected_repo == d0.selected_repo
                }),
            !(old(self).project_dialog matches Some(ProjectDialog::Github(_))) ==> final(self).project_dialog == old(self).project_dialog,
            final(self).rename_dialog == old(self).rename_dialog,
            final(self).projects == old(self).projects,
            final(self).sessions == old(self).sessions,
    {
        if let Some(ProjectDialog::Github(d)) = &mut self.project_dialog {
            d.recent_repos = repos;
        }
    }

    /// Pick a listed repository: it becomes the selection and its clone URL
    /// fills the URL field.
    pub fn select_recent_repo(&mut self, name_with_owner: String)
        ensures
            old(self).project_dialog matches Some(ProjectDialog::Github(d0)) ==>
                (final(self).project_dialog matches Some(ProjectDialog::Github(d1)) && {
                    &&& d1.selected_repo == Some(name_with_owner)
                    &&& d1.url@ == repo_clone_url(name_with_owner@)
                    &&& d1.location == d0.location
                    &&& d1.stage == d0.stage
                    &&& d1.error == d0.error
                    &&& d1.recent_repos == d0.recent_repos
                }),
            !(old(self).project_dialog matches Some(ProjectDialog::Github(_))) ==> final(self).project_dialog == old(self).project_dialog,
            final(self).rename_dialog == old(self).rename_dialog,
            final(self).projects == old(self).projects,
            final(self).sessions == old(self).sessions,
    {
        if let Some(ProjectDialog::Github(d)) = &mut self.project_dialog {
            let mut url = String::from_str("https://github.com/");
            url.append(name_with_owner.as_str());
            url.append(".git");
            d.url = url;
            d.selected_repo = Some(name_with_owner);
        }
    }

    /// The folder picked for the clone fills the location field.
    pub fn choose_clone_location(&mut self, path: String)
        ensures
            old(self).project_dialog matches Some(ProjectDialog::Github(d0)) ==>
                (final(self).project_dialog matches Some(ProjectDialog::Github(d1)) && {
                    &&& d1.location == path
                    &&& d1.url == d0.url
                    &&& d1.stage == d0.stage
                    &&& d1.error == d0.error
                    &&& d1.recent_repos == d0.recent_repos
                    &&& d1.selected_repo == d0.selected_repo
                }),
            !(old(self).project_dialog matches Some(ProjectDialog::Github(_))) ==> final(self).project_dialog == old(self).project_dialog,
            final(self).rename_dialog == old(self).rename_dialog,
            final(self).projects == old(self).projects,
            final(self).sessions == old(self).sessions,
    {
        if let Some(ProjectDialog::Github(d)) = &mut self.project_dialog {
            d.location = path;
        }
    }

    /// Whether the clone button is enabled.
    pub fn can_open(&self) -> (r: bool)
        ensures
            r == (self.project_dialog matches Some(ProjectDialog::Github(d)) && can_clone(d)),
    {
        match &self.project_dialog {
            Some(ProjectDialog::Github(d)) => {
                let url = trimmed(d.url.as_str());
                matches!(d.stage, CloneStage::Idle) && !url.as_str().is_empty()
            },
            _ => false,
        }
    }

    /// Close the project dialog. Returns whether one was open, in which case
    /// focus goes back to the composer.
    pub fn close_project_dialog(&mut self) -> (r: bool)
        ensures
            r == old(self).project_dialog is Some,
            final(self).project_dialog is None,
            final(self).rename_dialog == old(self).rename_dialog,
            final(self).projects == old(self).projects,
            final(self).sessions == old(self).sessions,
    {
        self.project_dialog.take().is_some()
    }

    /// Choosing a local folder closes the dialog; the folder picker opens
    /// next.
    pub fn choose_local_project(&mut self)
        ensures
            final(self).project_dialog is None,
            final(self).rename_dialog == old(self).rename_dialog,
            final(self).projects == old(self).projects,
            final(self).sessions == old(self).sessions,
    {
        self.close_project_dialog();
    }

    /// Start cloning from the GitHub form. Only an idle form starts a clone;
    /// a blank URL or a blank location is reported in the form instead.
    /// A started clone moves the form to `Fetching` and clears its error.
    pub fn clone_github_project(&mut self) -> (r: Option<CloneRequest>)
        ensures
            old(self).project_dialog matches Some(ProjectDialog::Github(d0)) ==> d0.stage is Idle ==> {
                let u = trim(d0.url@);
                let l = trim(d0.location@);
                &&& final(self).project_dialog matches Some(ProjectDialog::Github(d1)) && {
                    &&& d1.url == d0.url
                    &&& d1.location == d0.location
                    &&& d1.recent_repos == d0.recent_repos
                    &&& d1.selected_repo == d0.selected_repo
                    &&& u.len() == 0 ==> d1.stage is Idle && (d1.error matches Some(DialogError::GithubUrlRequired))
                    &&& u.len() > 0 && l.len() == 0 ==> d1.stage is Idle && (d1.error matches Some(DialogError::CloneLocationRequired))
                    &&& u.len() > 0 && l.len() > 0 ==> d1.stage is Fetching && d1.error is None
                }
                &&& (u.len() > 0 && l.len() > 0) <==> r is Some
                &&& r matches Some(req) ==> req.url@ == u && req.destination@ == l
            },
            !(old(self).project_dialog matches Some(ProjectDialog::Github(d0)) && d0.stage is Idle) ==> {
                &&& r is None
                &&& final(self).project_dialog == old(self).project_dialog
            },
            final(self).rename_dialog == old(self).rename_dialog,
            final(self).projects == old(self).projects,
            final(self).sessions == old(self).sessions,
    {
        if let Some(ProjectDialog::Github(d)) = &mut self.project_dialog {
            if !matches!(d.stage, CloneStage::Idle) {
                return None;
            }
            let url = trimmed(d.url.as_str());
            let destination = trimmed(d.location.as_str());
            if url.as_str().is_empty() {
                d.error = Some(DialogError::GithubUrlRequired);
                return None;
            }
            if destination.as_str().is_empty() {
                d.error = Some(DialogError::CloneLocationRequired);
                return None;
            }
            d.stage = CloneStage::Fetching;
            d.error = None;
            return Some(CloneRequest { url, destination });
        }
        None
    }

    /// The brief fetching phase is over: the form shows that the clone runs.
    pub fn clone_fetched(&mut self)
        ensures
            old(self).project_dialog matches Some(ProjectDialog::Github(d0)) ==>
                (final(self).project_dialog matches Some(ProjectDialog::Github(d1)) && d1.stage is Cloning
                    && d1.url == d0.url && d1.location == d0.location && d1.error == d0.error
                    && d1.recent_repos == d0.recent_repos && d1.selected_repo == d0.selected_repo),
            !(old(self).project_dialog matches Some(ProjectDialog::Github(_))) ==> final(self).project_dialog == old(self).project_dialog,
            final(self).rename_dialog == old(self).rename_dialog,
            final(self).projects == old(self).projects,
            final(self).sessions == old(self).sessions,
    {
        if let Some(ProjectDialog::Github(d)) = &mut self.project_dialog {
            d.stage = CloneStage::Cloning;
        }
    }

    /// The daemon answered the clone. Success closes the dialog and hands
    /// back the cloned project's path to add; failure returns the form to
    /// `Idle` with the message.
    pub fn clone_finished(&mut self, result: Result<String, String>) -> (r: Option<String>)
        ensures
            result matches Ok(path) ==> r == Some(path) && final(self).project_dialog is None,
            result matches Err(message) ==> r is None && (old(self).project_dialog matches Some(ProjectDialog::Github(d0)) ==>
                (final(self).project_dialog matches Some(ProjectDialog::Github(d1)) && d1.stage is Idle
                    && d1.error == Some(DialogError::CloneFailed(message)) && d1.url == d0.url && d1.location == d0.location
                    && d1.recent_repos == d0.recent_repos && d1.selected_repo == d0.selected_repo)),
            result is Err && !(old(self).project_dialog matches Some(ProjectDialog::Github(_))) ==> final(self).project_dialog == old(self).project_dialog,
            final(self).rename_dialog == old(self).rename_dialog,
            final(self).projects == old(self).projects,
            final(self).sessions == old(self).sessions,
    {
        match result {
            Ok(path) => {
                self.project_dialog = None;
                Some(path)
            },
            Err(message) => {
                if let Some(ProjectDialog::Github(d)) = &mut self.project_dialog {
                    d.stage = CloneStage::Idle;
                    d.error = Some(DialogError::CloneFailed(message));
                }
                None
            },
        }
    }

    /// Open the rename dialog for a project, its input holding the project's
    /// current name (empty when there is no such project).
    pub fn open_rename_project_dialog(&mut self, project_id: u128)
        ensures
            final(self).rename_dialog matches Some(d) && d.target == RenameTarget::Project(project_id) && (
                match project_index(old(self).projects@, project_id) {
                    Some(k) => d.input@ == old(self).projects@[k].name@,
                    None => d.input@.len() == 0,
                }),
            final(self).project_dialog == old(self).project_dialog,
            final(self).projects == old(self).projects,
            final(self).sessions == old(self).sessions,
    {
        let current = match find_project(&self.projects, project_id) {
            Some(k) => owned(self.projects[k].name.as_str()),
            None => String::new(),
        };
        self.rename_dialog = Some(RenameDialog { target: RenameTarget::Project(project_id), input: current });
    }

    /// Open the rename dialog for a chat, its input holding `current_title`,
    /// the chat's title as the sidebar shows it.
    pub fn open_rename_session_dialog(&mut self, session_id: u128, current_title: String)
        ensures
            final(self).rename_dialog matches Some(d) && d.target == RenameTarget::Session(session_id) && d.input == current_title,
            final(self).project_dialog == old(self).project_dialog,
            final(self).projects == old(self).projects,
            final(self).sessions == old(self).sessions,
    {
        self.rename_dialog = Some(RenameDialog { target: RenameTarget::Session(session_id), input: current_title });
    }

    /// Close the rename dialog. Returns whether one was open, in which case
    /// focus goes back to the composer.
    pub fn close_rename_dialog(&mut self) -> (r: bool)
        ensures
            r == old(self).rename_dialog is Some,
            final(self).rename_dialog is None,
            final(self).project_dialog == old(self).project_dialog,
            final(self).projects == old(self).projects,
            final(self).sessions == old(self).sessions,
    {
        self.rename_dialog.take().is_some()
    }
}

/// The effect of confirming the rename dialog.
pub open spec fn renamed(old_waku: Waku, new_waku: Waku, new_name: Seq<char>) -> bool {
    match old_waku.rename_dialog {
        None => false,
        Some(d) => match d.target {
            RenameTarget::Project(id) => {
                &&& new_waku.sessions == old_waku.sessions
                &&& new_waku.projects@.len() == old_waku.projects@.len()
                &&& match project_index(old_waku.projects@, id) {
                    Some(k) => {
                        &&& new_waku.projects@[k].id == id
                        &&& new_waku.projects@[k].name@ == new_name
                        &&& forall|j: int| 0 <= j < old_waku.projects@.len() && j != k ==> new_waku.projects@[j] == old_waku.projects@[j]
                    },
                    None => new_waku.projects == old_waku.projects,
                }
            },
            RenameTarget::Session(id) => {
                &&& new_waku.projects == old_waku.projects
                &&& new_waku.sessions@.len() == old_waku.sessions@.len()
                &&& match session_index(old_waku.sessions@, id) {
                    Some(k) => {
                        &&& new_waku.sessions@[k].id == id
                        &&& new_waku.sessions@[k].title@ == new_name
                        &&& new_waku.sessions@[k].auto_title is None
                        &&& forall|j: int| 0 <= j < old_waku.sessions@.len() && j != k ==> new_waku.sessions@[j] == old_waku.sessions@[j]
                    },
                    None => new_waku.sessions == old_waku.sessions,
                }
            },
        },
    }
}

impl Waku {
    /// Confirm the rename dialog. A blank name (after trimming) keeps the
    /// dialog open and changes nothing. Otherwise the first project or chat
    /// with the target's id takes the trimmed name (a chat also drops its
    /// generated title), and the dialog closes. Returns `Some(saved)` when
    /// the dialog closed, `saved` telling whether a record changed.
    pub fn confirm_rename(&mut self) -> (r: Option<bool>)
        ensures
            (old(self).rename_dialog matches Some(d) && trim(d.input@).len() > 0) ==> {
                &&& renamed(*old(self), *final(self), trim(old(self).rename_dialog->0.input@))
                &&& final(self).rename_dialog is None
                &&& r == Some(match old(self).rename_dialog->0.target {
                    RenameTarget::Project(id) => project_index(old(self).projects@, id) is Some,
                    RenameTarget::Session(id) => session_index(old(self).sessions@, id) is Some,
                })
            },
            !(old(self).rename_dialog matches Some(d) && trim(d.input@).len() > 0) ==> {
                &&& r is None
                &&& final(self).rename_dialog == old(self).rename_dialog
                &&& final(self).projects == old(self).projects
                &&& final(self).sessions == old(self).sessions
            },
            final(self).project_dialog == old(self).project_dialog,
    {
        let (target, new_name) = match &self.rename_dialog {
            None => return None,
            Some(d) => (d.target, trimmed(d.input.as_str())),
        };
        if new_name.as_str().is_empty() {
            return None;
        }
        let saved = match target {
            RenameTarget::Project(id) => match find_project(&self.projects, id) {
                Some(k) => {
                    self.projects.set(k, Project { id, name: new_name });
                    true
                },
                None => false,
            },
            RenameTarget::Session(id) => match find_session(&self.sessions, id) {
                Some(k) => {
                    self.sessions.set(k, Session { id, title: new_name, auto_title: None });
                    true
                },
                None => false,
            },
        };
        self.rename_dialog = None;
        Some(saved)
    }
}

/// The rename dialog's title and its input's label for a target.
pub open spec fn rename_labels(target: RenameTarget) -> (Seq<char>, Seq<char>) {
    match target {
        RenameTarget::Project(_) => ("Rename project"@, "Project name"@),
        RenameTarget::Session(_) => ("Rename chat"@, "Chat title"@),
    }
}

pub fn rename_dialog_labels(target: RenameTarget) -> (r: (&'static str, &'static str))
    ensures
        r.0@ == rename_labels(target).0,
        r.1@ == rename_labels(target).1,
{
    match target {
        RenameTarget::Project(_) => ("Rename project", "Project name"),
        RenameTarget::Session(_) => ("Rename chat", "Chat title"),
    }
}

/// The clone button's progress line while a clone is under way.
pub open spec fn clone_progress_text(stage: CloneStage) -> Seq<char> {
    match stage {
        CloneStage::Fetching => "Fetching repository\u{2026}"@,
        _ => "Cloning repository\u{2026}"@,
    }
}

/// The clone button's text for a stage: while idle, the `project.clone`
/// message looked up once through `translate`, the application's message
/// catalogue; while busy, a progress line.
pub fn clone_button_label<F: Fn(&str) -> String>(stage: CloneStage, translate: F) -> (r: String)
    requires
        forall|k: &str| #[trigger] translate.requires((k,)),
    ensures
        stage is Idle ==> exists|k: &str| k@ == "project.clone"@ && #[trigger] translate.ensures((k,), r),
        !(stage is Idle) ==> r@ == clone_progress_text(stage),
{
    match stage {
        CloneStage::Idle => translate("project.clone"),
        CloneStage::Fetching => crate::text::owned("Fetching repository\u{2026}"),
        CloneStage::Cloning => crate::text::owned("Cloning repository\u{2026}"),
    }
}

} // verus!
