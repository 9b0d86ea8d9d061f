use aether::error::AetherError;
use aether::jj::JjCommand;
use aether::jj_status::parse_status;

#[test]
fn test_workspace_add_args() {
    let cmd = JjCommand::workspace_add("../test-ws", None);
    assert_eq!(*cmd.args(), vec!["workspace", "add", "../test-ws"]);
}

#[test]
fn test_workspace_add_with_revision() {
    let cmd = JjCommand::workspace_add("../test-ws", Some("main"));
    assert_eq!(
        *cmd.args(),
        vec!["workspace", "add", "../test-ws", "--revision", "main"]
    );
}

#[test]
fn test_workspace_forget_args() {
    let cmd = JjCommand::workspace_forget("test-ws");
    assert_eq!(*cmd.args(), vec!["workspace", "forget", "test-ws"]);
}

#[test]
fn test_status_args() {
    let cmd = JjCommand::status();
    assert_eq!(*cmd.args(), vec!["status"]);
}

#[test]
fn new_command_keeps_arguments() {
    let cmd = JjCommand::new(vec!["log".to_string(), "-r".to_string(), "@".to_string()]);
    assert_eq!(*cmd.args(), vec!["log", "-r", "@"]);
}

#[test]
fn test_parse_status_basic() {
    let output = "Working copy: main @ abc123\nParent commit: xyz789";
    let status = parse_status(output).unwrap();
    assert!(status.working_copy.is_some());
}

#[test]
fn test_parse_status_empty() {
    let output = "No working copy";
    let status = parse_status(output).unwrap();
    assert!(status.working_copy.is_none());
}

#[test]
fn parse_status_reads_second_field_trimmed() {
    let status = parse_status("Parent commit: xyz\nWorking copy :  main @ abc123 \r\n").unwrap();
    assert_eq!(status.working_copy, Some("main @ abc123".to_string()));
    let status = parse_status("Working copy: a: b").unwrap();
    assert_eq!(status.working_copy, Some("a".to_string()));
    let status = parse_status("Working copy (@) here\nWorking copy: x").unwrap();
    assert_eq!(status.working_copy, None);
    let status = parse_status("").unwrap();
    assert_eq!(status.working_copy, None);
}

#[test]
fn outcome_of_successful_run_keeps_output() {
    let out = JjCommand::outcome(true, Some(0), "out".to_string(), "err".to_string()).unwrap();
    assert_eq!(out.stdout, "out");
    assert_eq!(out.stderr, "err");
}

#[test]
fn outcome_of_failed_run_carries_stderr_and_code() {
    let err = JjCommand::outcome(false, Some(2), String::new(), "boom".to_string());
    assert!(matches!(err, Err(AetherError::Jj { ref message, exit_code: 2 }) if message == "boom"));
    let err = JjCommand::outcome(false, None, String::new(), "killed".to_string());
    assert!(matches!(err, Err(AetherError::Jj { exit_code: -1, .. })));
}

#[test]
fn launch_failure_messages() {
    let e = JjCommand::launch_failure(true, "ignored");
    assert_eq!(
        e,
        AetherError::Jj {
            message: "jj command not found. Please install Jujutsu.".to_string(),
            exit_code: -1
        }
    );
    let e = JjCommand::launch_failure(false, "permission denied");
    assert_eq!(
        e,
        AetherError::Jj { message: "Failed to execute jj: permission denied".to_string(), exit_code: -1 }
    );
}
