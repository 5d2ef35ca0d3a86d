use c2rust_clean::error::{CleanError, IoErrorKind};
use c2rust_clean::git_helper::{step_failure, StoreState};
use c2rust_clean::path::NormalPath;
use c2rust_clean::process::ProcessOutcome;
use c2rust_clean::root::{MarkerProbe, RootOverride};
use c2rust_clean::run::{
    auto_commit_disabled, feature_or_default, Action, Event, Location, Report, Session,
};

const NONE: MarkerProbe = MarkerProbe { git: false, cargo_toml: false, c2rust: false };
const GIT: MarkerProbe = MarkerProbe { git: true, cargo_toml: false, c2rust: false };

fn path(names: &[&str]) -> NormalPath {
    let names: Vec<String> = names.iter().map(|s| s.to_string()).collect();
    NormalPath::from_parts("/", &names).unwrap()
}

fn strings(items: &[&str]) -> Vec<String> {
    items.iter().map(|s| s.to_string()).collect()
}

fn exit(code: i32) -> ProcessOutcome {
    ProcessOutcome::Exited { code: Some(code), stdout: String::new(), stderr: String::new() }
}

fn located(current: &[&str], probes: Vec<MarkerProbe>) -> Event {
    Event::Located(Ok(Location { current_dir: path(current), root_override: None, probes }))
}

fn report(session: Session) -> Report {
    match session {
        Session::Finished(report) => report,
        other => panic!("the session has not ended: {:?}", other),
    }
}

/// Drives a session in which every process succeeds, and gives back what
/// was asked of the caller on the way, as text, with the final report.
fn drive(session: Session, current: &[&str], probes: Vec<MarkerProbe>) -> (Vec<String>, Report) {
    let mut session = session;
    let mut asked = Vec::new();
    loop {
        let event = match session.pending() {
            Action::ProbeTool(call) => {
                asked.push(format!("probe {} {}", call.program, call.args.join(" ")));
                Event::ToolProbed(exit(0))
            }
            Action::Locate => {
                asked.push("locate".to_string());
                located(current, probes.clone())
            }
            Action::Execute(launch) => {
                asked.push(format!("run {:?} {:?} in {}", launch.program, launch.args, launch.dir));
                Event::Executed(exit(0))
            }
            Action::StoreField(call) => {
                asked.push(format!("store {} {:?}", call.program, call.args));
                Event::FieldStored(exit(0))
            }
            Action::AutoCommit(root) => {
                asked.push(format!("commit {}", root.to_text()));
                Event::AutoCommitted(Ok(StoreState::NoStore))
            }
            Action::Exit => break,
        };
        session = session.advance(event);
    }
    (asked, report(session))
}

#[test]
fn test_clean_command_basic() {
    let session = Session::start(None, strings(&["echo", "cleaning"]), Some("/mock/c2rust-config"), None);
    let (asked, report) = drive(session, &["tmp", "work"], vec![NONE, NONE, NONE]);
    assert_eq!(report.code, 0);
    assert_eq!(report.error, None);
    assert!(asked.contains(&"run \"echo\" [\"cleaning\"] in /tmp/work".to_string()));
}

#[test]
fn test_clean_with_multiple_args() {
    let session = Session::start(None, strings(&["echo", "test", "clean"]), Some("/mock/c2rust-config"), None);
    let (asked, report) = drive(session, &["tmp", "work"], vec![NONE, NONE, NONE]);
    assert_eq!(report.code, 0);
    assert!(asked.contains(&"run \"echo\" [\"test\", \"clean\"] in /tmp/work".to_string()));
    assert!(asked.iter().any(|a| a.contains("\"clean.cmd\", \"echo test clean\"")));
}

#[test]
fn test_missing_clean_cmd() {
    // Without a command the session fails, and nothing is run or stored.
    let session = Session::start(None, Vec::new(), Some("/mock/c2rust-config"), None);
    let (asked, report) = drive(session, &["tmp", "work"], vec![NONE, NONE, NONE]);
    assert_eq!(report.code, 1);
    assert_eq!(
        report.error,
        Some(CleanError::CommandExecutionFailed("No command provided".to_string()))
    );
    assert_eq!(asked, vec!["probe /mock/c2rust-config --help", "locate"]);
}

#[test]
fn test_config_tool_not_found() {
    // The tool path points nowhere: the session ends before anything else
    // is asked for.
    let session = Session::start(
        None,
        strings(&["echo", "test"]),
        Some("/nonexistent/path/to/c2rust-config"),
        None,
    );
    match session.pending() {
        Action::ProbeTool(call) => {
            assert_eq!(call.program, "/nonexistent/path/to/c2rust-config");
            assert_eq!(call.args, strings(&["--help"]));
        }
        other => panic!("unexpected action {:?}", other),
    }
    let session = session.advance(Event::ToolProbed(ProcessOutcome::SpawnFailed(
        "No such file or directory (os error 2)".to_string(),
    )));
    assert!(matches!(session.pending(), Action::Exit));
    let report = report(session);
    assert_eq!(report.code, 1);
    assert!(report.error.unwrap().message().contains("c2rust-config not found"));
}

#[test]
fn test_feature_parameter_with_mock_config() {
    let session =
        Session::start(Some("myfeature"), strings(&["echo", "test"]), Some("mock-c2rust-config"), None);
    let (asked, report) = drive(session, &["tmp", "work"], vec![NONE, NONE, NONE]);
    assert_eq!(report.code, 0);
    let log_content = asked.join("\n");
    assert!(log_content.contains("--feature"), "Expected --feature in log");
    assert!(log_content.contains("myfeature"), "Expected myfeature in log");
}

#[test]
fn test_default_feature_when_not_specified() {
    let session = Session::start(None, strings(&["echo", "test"]), Some("mock-c2rust-config-default"), None);
    let (asked, report) = drive(session, &["tmp", "work"], vec![NONE, NONE, NONE]);
    assert_eq!(report.code, 0);
    let log_content = asked.join("\n");
    assert!(log_content.contains("--feature"), "Expected --feature in log");
    assert!(log_content.contains("default"), "Expected default in log");
}

#[test]
fn test_git_auto_commit_failure_is_non_fatal() {
    // The snapshot fails; the invocation still succeeds, with a warning.
    let mut session = Session::start(None, strings(&["echo", "test"]), Some("/mock/c2rust-config"), None);
    session = session.advance(Event::ToolProbed(exit(0)));
    session = session.advance(located(&["tmp", "work"], vec![NONE, NONE, NONE]));
    session = session.advance(Event::Executed(exit(0)));
    session = session.advance(Event::FieldStored(exit(0)));
    session = session.advance(Event::FieldStored(exit(0)));
    assert!(matches!(session.pending(), Action::AutoCommit(_)));
    let failure = step_failure("Failed to commit: ", "no identity");
    session = session.advance(Event::AutoCommitted(Err(failure)));
    let report = report(session);
    assert_eq!(report.code, 0);
    assert_eq!(report.error, None);
    let warning = report.warning.unwrap();
    assert!(warning.contains("Warning: Auto-commit failed:"));
    assert_eq!(warning, "Warning: Auto-commit failed: IO error: Failed to commit: no identity");
}

#[test]
fn a_run_below_a_marked_root_records_the_relative_directory() {
    // Start in root/sub, marker at root only, command `echo hi`.
    let session = Session::start(None, strings(&["echo", "hi"]), None, None);
    let (asked, report) = drive(session, &["root", "sub"], vec![NONE, GIT, NONE]);
    assert_eq!(
        asked,
        vec![
            "probe c2rust-config --help".to_string(),
            "locate".to_string(),
            "run \"echo\" [\"hi\"] in /root/sub".to_string(),
            "store c2rust-config [\"config\", \"--make\", \"--feature\", \"default\", \"--set\", \"clean.dir\", \"sub\"]".to_string(),
            "store c2rust-config [\"config\", \"--make\", \"--feature\", \"default\", \"--set\", \"clean.cmd\", \"echo hi\"]".to_string(),
            "commit /root".to_string(),
        ]
    );
    assert_eq!(report.code, 0);
    assert_eq!(report.error, None);
    assert_eq!(report.warning, None);
}

#[test]
fn a_run_without_any_marker_uses_the_starting_directory() {
    let session = Session::start(None, strings(&["make", "clean"]), None, None);
    let (asked, report) = drive(session, &["x"], vec![NONE, NONE]);
    assert_eq!(report.code, 0);
    assert!(asked.iter().any(|a| a.contains("\"clean.dir\", \".\"")));
    assert!(asked.contains(&"commit /x".to_string()));
}

#[test]
fn a_run_with_an_override_outside_the_current_directory_stores_a_dot() {
    let mut session = Session::start(None, strings(&["make"]), None, None);
    session = session.advance(Event::ToolProbed(exit(0)));
    session = session.advance(Event::Located(Ok(Location {
        current_dir: path(&["home", "me"]),
        root_override: Some(RootOverride { path: path(&["srv", "proj"]), is_directory: true }),
        probes: vec![GIT],
    })));
    match &session {
        Session::Executing(_, place) => {
            assert_eq!(place.root.to_text(), "/srv/proj");
            assert!(!place.current_dir.starts_with(&place.root));
        }
        other => panic!("unexpected state {:?}", other),
    }
    session = session.advance(Event::Executed(exit(0)));
    match session.pending() {
        Action::StoreField(call) => assert_eq!(call.args[4..], strings(&["--set", "clean.dir", "."])),
        other => panic!("unexpected action {:?}", other),
    }
}

#[test]
fn a_failed_command_ends_the_run_before_anything_is_stored() {
    let mut session = Session::start(None, strings(&["make", "clean"]), None, None);
    session = session.advance(Event::ToolProbed(exit(0)));
    session = session.advance(located(&["w"], vec![NONE, NONE]));
    session = session.advance(Event::Executed(exit(3)));
    assert!(matches!(session.pending(), Action::Exit));
    let report = report(session);
    assert_eq!(report.code, 1);
    assert_eq!(
        report.error,
        Some(CleanError::CommandExecutionFailed(
            "Command 'make clean' failed with exit code 3".to_string()
        ))
    );
}

#[test]
fn the_first_failed_save_ends_the_run() {
    let mut session = Session::start(None, strings(&["make"]), None, None);
    session = session.advance(Event::ToolProbed(exit(0)));
    session = session.advance(located(&["w"], vec![NONE, NONE]));
    session = session.advance(Event::Executed(exit(0)));
    session = session.advance(Event::FieldStored(ProcessOutcome::Exited {
        code: Some(1),
        stdout: String::new(),
        stderr: "locked".to_string(),
    }));
    let report = report(session);
    assert_eq!(report.code, 1);
    assert_eq!(
        report.error,
        Some(CleanError::ConfigSaveFailed("Failed to save clean.dir: locked".to_string()))
    );
}

#[test]
fn a_failed_second_save_names_the_command() {
    let mut session = Session::start(None, strings(&["make"]), None, None);
    session = session.advance(Event::ToolProbed(exit(0)));
    session = session.advance(located(&["w"], vec![NONE, NONE]));
    session = session.advance(Event::Executed(exit(0)));
    session = session.advance(Event::FieldStored(exit(0)));
    session = session.advance(Event::FieldStored(ProcessOutcome::Exited {
        code: Some(1),
        stdout: String::new(),
        stderr: "locked".to_string(),
    }));
    assert_eq!(
        report(session).error,
        Some(CleanError::ConfigSaveFailed("Failed to save clean command: locked".to_string()))
    );
}

#[test]
fn a_place_that_cannot_be_found_ends_the_run() {
    let mut session = Session::start(None, strings(&["make"]), None, None);
    session = session.advance(Event::ToolProbed(exit(0)));
    let failure = CleanError::IoError(IoErrorKind::NotFound, "no current directory".to_string());
    session = session.advance(Event::Located(Err(failure.clone())));
    let report = report(session);
    assert_eq!(report.code, 1);
    assert_eq!(report.error, Some(failure));
}

#[test]
fn an_invalid_override_ends_the_run() {
    let mut session = Session::start(None, strings(&["make"]), None, None);
    session = session.advance(Event::ToolProbed(exit(0)));
    session = session.advance(Event::Located(Ok(Location {
        current_dir: path(&["home", "me"]),
        root_override: Some(RootOverride { path: path(&["gone"]), is_directory: false }),
        probes: vec![],
    })));
    assert_eq!(
        report(session).error,
        Some(CleanError::InvalidEnvironmentRoot("/gone".to_string()))
    );
}

#[test]
fn an_event_that_answers_nothing_changes_nothing() {
    let mut session = Session::start(None, strings(&["make"]), None, None);
    session = session.advance(Event::Executed(exit(0)));
    session = session.advance(Event::FieldStored(exit(1)));
    session = session.advance(Event::AutoCommitted(Ok(StoreState::RepoDirty)));
    assert!(matches!(session, Session::CheckingTool(_)));
    session = session.advance(Event::ToolProbed(exit(1)));
    assert!(matches!(session, Session::Finished(_)));
    session = session.advance(Event::ToolProbed(exit(0)));
    assert_eq!(report(session).code, 1);
}

#[test]
fn a_switched_off_snapshot_is_never_asked_for() {
    let session = Session::start(None, strings(&["make"]), None, Some("1"));
    let (asked, report) = drive(session, &["w"], vec![NONE, NONE]);
    assert_eq!(report.code, 0);
    assert!(!asked.iter().any(|a| a.starts_with("commit")));
    assert_eq!(asked.len(), 5);
}

#[test]
fn the_snapshot_switch_reads_like_a_boolean() {
    assert!(!auto_commit_disabled(None));
    assert!(!auto_commit_disabled(Some("")));
    assert!(!auto_commit_disabled(Some("0")));
    assert!(!auto_commit_disabled(Some("false")));
    assert!(!auto_commit_disabled(Some("FALSE")));
    assert!(!auto_commit_disabled(Some("FaLsE")));
    assert!(auto_commit_disabled(Some("1")));
    assert!(auto_commit_disabled(Some("true")));
    assert!(auto_commit_disabled(Some("00")));
    assert!(auto_commit_disabled(Some("fals")));
    assert!(auto_commit_disabled(Some("falsey")));
    assert!(auto_commit_disabled(Some(" ")));
    assert!(auto_commit_disabled(Some("no")));
}

#[test]
fn the_feature_defaults_to_default() {
    assert_eq!(feature_or_default(None), "default");
    assert_eq!(feature_or_default(Some("debug")), "debug");
    assert_eq!(feature_or_default(Some("")), "");
}
