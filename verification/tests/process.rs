use gong::sidecar::{
    enabled, needs_sidecar, parse_command, readiness, sidecar_exited, ChildState, SidecarError,
    SIDECAR_CWD_ENV, SIDECAR_ENV,
};
use gong::task::{GongTask, TaskKind};

#[test]
fn blank_command_line_disables() {
    assert!(!enabled(None));
    assert!(!enabled(Some("")));
    assert!(!enabled(Some(" \t\n")));
    assert!(enabled(Some(" uv run x ")));
}

#[test]
fn command_line_is_split() {
    let command = parse_command(Some(" uv  run harness/gong_sidecar.py --model-file m ")).ok().unwrap();
    assert_eq!(command.program, "uv");
    assert_eq!(command.args, ["run", "harness/gong_sidecar.py", "--model-file", "m"]);
    let command = parse_command(Some("x")).ok().unwrap();
    assert_eq!(command.program, "x");
    assert!(command.args.is_empty());
}

#[test]
fn empty_command_line_is_an_error() {
    for line in [None, Some(""), Some("  ")] {
        assert_eq!(parse_command(line).err(), Some(SidecarError::EmptyCommand));
    }
    assert_eq!(SidecarError::EmptyCommand.message(), "CODEX_GONG_SIDECAR is empty");
    assert_eq!(SIDECAR_ENV, "CODEX_GONG_SIDECAR");
    assert_eq!(SIDECAR_CWD_ENV, "CODEX_GONG_CWD");
}

#[test]
fn enabled_exactly_with_a_command() {
    for line in [None, Some(""), Some(" "), Some("a"), Some(" a b "), Some("\u{2003}")] {
        assert_eq!(enabled(line), parse_command(line).is_ok());
    }
}

#[test]
fn sidecar_is_ready_when_it_says_so() {
    assert_eq!(readiness(Some("{\"event\":\"ready\"}")), Ok(true));
    assert_eq!(readiness(Some("{\"event\":\"loading\"}")), Ok(false));
    assert_eq!(readiness(Some("warming up")), Ok(false));
    assert_eq!(readiness(None), Err(SidecarError::ExitedEarly));
    assert_eq!(
        SidecarError::ExitedEarly.message(),
        "gong sidecar exited before reporting ready"
    );
}

#[test]
fn kept_sidecar_is_used_while_it_runs() {
    assert!(needs_sidecar(None));
    assert!(needs_sidecar(Some(ChildState::Exited)));
    assert!(needs_sidecar(Some(ChildState::Unknown)));
    assert!(!needs_sidecar(Some(ChildState::Running)));
    assert!(sidecar_exited(ChildState::Unknown));
    assert!(!sidecar_exited(ChildState::Running));
}

#[test]
fn task_is_a_regular_turn() {
    let task = GongTask::new();
    assert_eq!(task.kind(), TaskKind::Regular);
    assert_eq!(task.span_name(), "session_task.gong");
}
