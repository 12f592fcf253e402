//! Tests of process supervision: liveness lookup with identifier adoption,
//! the kill-grace rule, the supervision state machine, and the registration
//! handoff.

use g_cli::labview_error::LabVIEWError;
use g_cli::process::{
    check_process, filter_processes_by_path, find_process, kill_poll, kill_step,
    make_command_line, supervise, KillStep, MonitoredProcess, SupervisionEvent, SupervisionState,
};

fn wide(s: &str) -> Vec<u16> {
    s.encode_utf16().collect()
}

fn narrow(units: &[u16]) -> String {
    String::from_utf16(units).expect("test data is valid")
}

fn test_process_list() -> Vec<(u32, String)> {
    vec![(1, String::from("Process"))]
}

#[test]
fn find_processes_same_process() {
    let processes = test_process_list();

    assert_eq!(find_process(&processes, 1), Some(1));
}

#[test]
fn find_processes_new_process() {
    let processes = test_process_list();

    assert_eq!(find_process(&processes, 2), Some(1));
}

#[test]
fn find_processes_none() {
    let processes: Vec<(u32, String)> = vec![];

    assert_eq!(find_process(&processes, 1), None);
}

#[test]
fn filter_keeps_only_matching_paths() {
    let all = vec![
        (10, String::from("/usr/bin/a"), String::from("a")),
        (11, String::from("/usr/bin/b"), String::from("b")),
        (12, String::from("/usr/bin/a"), String::from("a2")),
    ];

    let matching = filter_processes_by_path(&all, "/usr/bin/a");

    assert_eq!(matching, vec![(10, String::from("a")), (12, String::from("a2"))]);
}

#[test]
fn check_process_on_absent_path_is_lost() {
    // No process on this machine runs an executable at this path.
    assert_eq!(check_process("/nonexistent/surely/not/here", 424242), None);
}

#[test]
fn kill_step_leaves_closed_process_alone() {
    assert_eq!(kill_step(true, true), KillStep::Finished);
    assert_eq!(kill_step(true, false), KillStep::Finished);
}

#[test]
fn kill_step_kills_after_timeout() {
    assert_eq!(kill_step(false, true), KillStep::KillNow);
}

#[test]
fn kill_step_waits_within_grace() {
    assert_eq!(kill_step(false, false), KillStep::KeepWaiting);
}

#[test]
fn kill_poll_finishes_when_the_process_is_gone() {
    // Nothing runs this executable, so the poll concludes a natural exit and
    // kills nothing, whether or not time is up.
    assert_eq!(kill_poll("/nonexistent/surely/not/here", 424242, false), KillStep::Finished);
    assert_eq!(kill_poll("/nonexistent/surely/not/here", 424242, true), KillStep::Finished);
}

#[test]
fn supervision_scan_tracks_liveness() {
    let s = supervise(SupervisionState::Running, SupervisionEvent::ScanFound);
    assert_eq!(s, SupervisionState::Running);

    let s = supervise(SupervisionState::Running, SupervisionEvent::ScanLost);
    assert_eq!(s, SupervisionState::Lost);

    // A lost process stays lost even if something reappears on a later scan.
    let s = supervise(SupervisionState::Lost, SupervisionEvent::ScanFound);
    assert_eq!(s, SupervisionState::Lost);
}

#[test]
fn supervision_stop_without_kill_ends_monitoring() {
    let s = supervise(SupervisionState::Running, SupervisionEvent::Stop { kill: false });
    assert_eq!(s, SupervisionState::Done);

    let s = supervise(SupervisionState::Lost, SupervisionEvent::Stop { kill: true });
    assert_eq!(s, SupervisionState::Done);
}

#[test]
fn supervision_kill_path() {
    let s = supervise(SupervisionState::Running, SupervisionEvent::Stop { kill: true });
    assert_eq!(s, SupervisionState::AwaitingNaturalExit);

    let s = supervise(s, SupervisionEvent::KillPollAlive { timeout_elapsed: false });
    assert_eq!(s, SupervisionState::AwaitingNaturalExit);

    let s = supervise(s, SupervisionEvent::KillPollAlive { timeout_elapsed: true });
    assert_eq!(s, SupervisionState::Killed);
}

#[test]
fn supervision_natural_exit_within_grace() {
    let s = supervise(SupervisionState::AwaitingNaturalExit, SupervisionEvent::KillPollGone);
    assert_eq!(s, SupervisionState::Done);
}

#[test]
fn command_line_quotes_program_and_arguments() {
    let cmd = make_command_line(&wide("C:\\app.exe"), &vec![wide("a b"), wide("plain")]).unwrap();

    assert_eq!(narrow(&cmd), "\"C:\\app.exe\" \"a b\" \"plain\"");
}

#[test]
fn command_line_escapes_inner_quotes_and_backslashes() {
    // An inner quote is escaped; backslashes before it are doubled.
    let cmd = make_command_line(&wide("app"), &vec![wide("he\"llo")]).unwrap();
    assert_eq!(narrow(&cmd), "\"app\" \"he\\\"llo\"");

    let cmd = make_command_line(&wide("app"), &vec![wide("x\\\"y")]).unwrap();
    assert_eq!(narrow(&cmd), "\"app\" \"x\\\\\\\"y\"");

    // Backslashes before the closing quote are doubled too.
    let cmd = make_command_line(&wide("app"), &vec![wide("dir\\")]).unwrap();
    assert_eq!(narrow(&cmd), "\"app\" \"dir\\\\\"");
}

#[test]
fn command_line_wraps_batch_files_in_extra_quotes() {
    let cmd = make_command_line(&wide("run.BAT"), &vec![wide("x")]).unwrap();
    assert_eq!(narrow(&cmd), "\"\"run.BAT\" \"x\"\"");

    // A hidden file named like an extension is no batch script.
    let cmd = make_command_line(&wide("dir/.bat"), &vec![]).unwrap();
    assert_eq!(narrow(&cmd), "\"dir/.bat\"");
}

#[test]
fn command_line_refuses_nul_units() {
    let result = make_command_line(&wide("app"), &vec![vec![97, 0, 98]]);
    assert!(matches!(result, Err(LabVIEWError::NullCharInArgument)));
}

#[test]
fn set_connected_without_registration_is_noop() {
    let mut process = MonitoredProcess::new(None);

    assert!(process.set_connected().is_ok());
    // And calling it again changes nothing either.
    assert!(process.set_connected().is_ok());
}
