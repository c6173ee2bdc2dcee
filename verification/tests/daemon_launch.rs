use insulator::daemon::{
    daemon_executable_names, daemon_launch, daemon_missing_message, locate_daemon_executable, resolve_local_hostname,
    DaemonLaunch, DaemonLocation,
};

#[test]
fn both_variables_connect_to_the_remote_daemon() {
    match daemon_launch(Some("  10.0.0.2:7000 ".into()), Some("secret".into())) {
        DaemonLaunch::Connect { address, token } => {
            assert_eq!(address, "10.0.0.2:7000");
            assert_eq!(token, "secret");
        }
        other => panic!("unexpected {other:?}"),
    }
}

#[test]
fn one_variable_alone_is_an_error() {
    assert!(matches!(daemon_launch(Some("host:1".into()), None), DaemonLaunch::MissingToken));
    assert!(matches!(daemon_launch(Some("host:1".into()), Some(String::new())), DaemonLaunch::MissingToken));
    assert!(matches!(daemon_launch(None, Some("t".into())), DaemonLaunch::MissingAddress));
    assert!(matches!(daemon_launch(Some("   ".into()), Some("t".into())), DaemonLaunch::MissingAddress));
}

#[test]
fn no_variable_spawns_the_local_daemon() {
    assert!(matches!(daemon_launch(None, None), DaemonLaunch::SpawnLocal));
    assert!(matches!(daemon_launch(Some(" ".into()), Some(String::new())), DaemonLaunch::SpawnLocal));
}

#[test]
fn daemon_names_carry_the_executable_suffix() {
    assert_eq!(
        daemon_executable_names(".exe"),
        vec!["insulator-debug-daemon.exe", "insulator-daemon.exe", "insulator-daemon.exe"]
    );
    assert_eq!(daemon_executable_names("")[0], "insulator-debug-daemon");
}

#[test]
fn the_host_name_stops_at_the_nul_and_is_trimmed() {
    let mut buffer = [0_u8; 16];
    buffer[..8].copy_from_slice(b" laptop ");
    buffer[9] = b'x';
    assert_eq!(resolve_local_hostname(Some(&buffer), &[]), Some("laptop".to_string()));
}

#[test]
fn a_blank_host_name_falls_back_to_the_environment() {
    let env = [Some("  ".to_string()), Some(" build-box\n".to_string())];
    assert_eq!(resolve_local_hostname(Some(&[0_u8; 4]), &env), Some("build-box".to_string()));
    assert_eq!(resolve_local_hostname(None, &[None, Some("h".into())]), Some("h".to_string()));
    assert_eq!(resolve_local_hostname(None, &[None, Some(" ".into())]), None);
}

#[test]
fn the_explicit_path_wins_then_the_debug_directory_then_the_siblings() {
    assert_eq!(
        locate_daemon_executable(true, Some(vec![true, true, true]), Some(vec![true, true, true])),
        DaemonLocation::Explicit
    );
    assert_eq!(
        locate_daemon_executable(false, Some(vec![false, true, true]), Some(vec![true, true, true])),
        DaemonLocation::DebugDirectory(1)
    );
    assert_eq!(
        locate_daemon_executable(false, Some(vec![false, false, false]), Some(vec![false, false, true])),
        DaemonLocation::Sibling(2)
    );
    assert_eq!(locate_daemon_executable(false, None, Some(vec![true, false, false])), DaemonLocation::Sibling(0));
    assert_eq!(locate_daemon_executable(false, None, None), DaemonLocation::Missing);
    assert_eq!(
        locate_daemon_executable(false, Some(vec![false, false, false]), Some(vec![false, false, false])),
        DaemonLocation::Missing
    );
}

#[test]
fn a_missing_daemon_names_the_expected_sibling() {
    assert_eq!(
        daemon_missing_message("/Applications/Insulator.app/Contents/MacOS/insulator-debug-daemon", false),
        "Insulator daemon is missing next to the app executable: /Applications/Insulator.app/Contents/MacOS/insulator-debug-daemon"
    );
    assert_eq!(
        daemon_missing_message("/repo/target/debug/insulator-debug-daemon", true),
        "Insulator daemon was not found in Cargo's debug directory or next to the app executable: /repo/target/debug/insulator-debug-daemon"
    );
}
