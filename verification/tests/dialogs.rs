use insulator::project_dialog::{
    CloneStage, DialogError, GithubDialog, Project, ProjectDialog, RecentRepo, RenameTarget, Session, Waku,
};

fn waku() -> Waku {
    Waku::new(
        vec![Project { id: 1, name: "alpha".into() }, Project { id: 2, name: "beta".into() }],
        vec![Session { id: 7, title: "New task".into(), auto_title: Some("Fix the build".into()) }],
    )
}

fn github(w: &Waku) -> &GithubDialog {
    match &w.project_dialog {
        Some(ProjectDialog::Github(d)) => d,
        _ => panic!("the GitHub form is open"),
    }
}

fn github_mut(w: &mut Waku) -> &mut GithubDialog {
    match &mut w.project_dialog {
        Some(ProjectDialog::Github(d)) => d,
        _ => panic!("the GitHub form is open"),
    }
}

#[test]
fn the_source_chooser_opens_and_closes() {
    let mut w = waku();
    assert!(!w.close_project_dialog());
    w.open_project_source_dialog();
    assert!(matches!(w.project_dialog, Some(ProjectDialog::Sources)));
    w.choose_local_project();
    assert!(w.project_dialog.is_none());
    w.open_project_source_dialog();
    assert!(w.close_project_dialog());
}

#[test]
fn a_blank_url_or_location_is_reported() {
    let mut w = waku();
    w.open_github_project_dialog("/home/me/waku/repos".into());
    assert!(!w.can_open());
    github_mut(&mut w).url = "   ".into();
    assert!(w.clone_github_project().is_none());
    assert!(matches!(github(&w).error, Some(DialogError::GithubUrlRequired)));
    assert_eq!(github(&w).stage, CloneStage::Idle);

    github_mut(&mut w).url = " https://github.com/a/b.git ".into();
    github_mut(&mut w).location = "\t".into();
    assert!(w.can_open());
    assert!(w.clone_github_project().is_none());
    assert!(matches!(github(&w).error, Some(DialogError::CloneLocationRequired)));
}

#[test]
fn a_clone_runs_from_fetching_to_done() {
    let mut w = waku();
    w.open_github_project_dialog(" /tmp/repos ".into());
    w.select_recent_repo("octo/hello".into());
    assert_eq!(github(&w).url, "https://github.com/octo/hello.git");
    assert_eq!(github(&w).selected_repo.as_deref(), Some("octo/hello"));
    let request = w.clone_github_project().expect("the clone starts");
    assert_eq!(request.url, "https://github.com/octo/hello.git");
    assert_eq!(request.destination, "/tmp/repos");
    assert_eq!(github(&w).stage, CloneStage::Fetching);
    assert!(!w.can_open());
    // A second confirmation while busy does nothing.
    assert!(w.clone_github_project().is_none());
    w.clone_fetched();
    assert_eq!(github(&w).stage, CloneStage::Cloning);
    assert_eq!(w.clone_finished(Ok("/tmp/repos/hello".into())), Some("/tmp/repos/hello".to_string()));
    assert!(w.project_dialog.is_none());
}

#[test]
fn a_failed_clone_returns_to_idle_with_the_message() {
    let mut w = waku();
    w.open_github_project_dialog("/tmp".into());
    w.set_recent_repos(vec![RecentRepo { name_with_owner: "a/b".into(), description: None }]);
    assert_eq!(github(&w).recent_repos.len(), 1);
    github_mut(&mut w).url = "https://example.com/x.git".into();
    w.clone_github_project().unwrap();
    assert_eq!(w.clone_finished(Err("no route".into())), None);
    assert_eq!(github(&w).stage, CloneStage::Idle);
    assert!(matches!(&github(&w).error, Some(DialogError::CloneFailed(m)) if m == "no route"));
    w.choose_clone_location("/elsewhere".into());
    assert_eq!(github(&w).location, "/elsewhere");
}

#[test]
fn renaming_a_project_trims_the_name() {
    let mut w = waku();
    w.open_rename_project_dialog(2);
    assert_eq!(w.rename_dialog.as_ref().unwrap().input, "beta");
    assert_eq!(w.rename_dialog.as_ref().unwrap().target, RenameTarget::Project(2));
    w.rename_dialog.as_mut().unwrap().input = "  gamma \n".into();
    assert_eq!(w.confirm_rename(), Some(true));
    assert!(w.rename_dialog.is_none());
    assert_eq!(w.projects[1].name, "gamma");
    assert_eq!(w.projects[0].name, "alpha");
}

#[test]
fn a_blank_name_keeps_the_dialog_open() {
    let mut w = waku();
    w.open_rename_project_dialog(1);
    w.rename_dialog.as_mut().unwrap().input = "   ".into();
    assert_eq!(w.confirm_rename(), None);
    assert!(w.rename_dialog.is_some());
    assert_eq!(w.projects[0].name, "alpha");
    assert!(w.close_rename_dialog());
    assert!(!w.close_rename_dialog());
    assert_eq!(w.confirm_rename(), None);
}

#[test]
fn renaming_a_chat_drops_its_generated_title() {
    let mut w = waku();
    w.open_rename_session_dialog(7, "Fix the build".into());
    w.rename_dialog.as_mut().unwrap().input = "Release prep".into();
    assert_eq!(w.confirm_rename(), Some(true));
    assert_eq!(w.sessions[0].title, "Release prep");
    assert!(w.sessions[0].auto_title.is_none());
}

#[test]
fn renaming_a_missing_record_only_closes_the_dialog() {
    let mut w = waku();
    w.open_rename_project_dialog(99);
    assert_eq!(w.rename_dialog.as_ref().unwrap().input, "");
    w.rename_dialog.as_mut().unwrap().input = "x".into();
    assert_eq!(w.confirm_rename(), Some(false));
    assert!(w.rename_dialog.is_none());
    assert_eq!(w.projects[0].name, "alpha");
    assert_eq!(w.projects[1].name, "beta");
}
