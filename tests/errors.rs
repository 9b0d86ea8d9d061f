use aether::backend::{exec_result, ContainerSummary, ResourceHandle, ResourceStatus};
use aether::output::{run_report, status_report, workspace_add_report, workspace_forget_report};
use aether::state::WorkspaceState;
use aether::cli::{Cli, Commands, OutputFormat};
use aether::error::AetherError;
use aether::output::{cleanup_report, find_orphans, short_id, ErrorInfo};

#[test]
fn test_error_display() {
    let err = AetherError::Config("test error".to_string());
    assert_eq!(err.to_string(), "Configuration error: test error");
}

#[test]
fn test_jj_error() {
    let err = AetherError::Jj {
        message: "command failed".to_string(),
        exit_code: 1,
    };
    assert!(err.to_string().contains("exit code: 1"));
}

#[test]
fn error_messages_of_every_kind() {
    let m = |e: AetherError| e.to_string();
    assert_eq!(
        m(AetherError::Jj { message: "x".to_string(), exit_code: -12 }),
        "Jujutsu command failed: x (exit code: -12)"
    );
    assert_eq!(m(AetherError::Backend("b".to_string())), "Backend error: b");
    assert_eq!(m(AetherError::PortAllocation("p".to_string())), "Port allocation failed: p");
    assert_eq!(m(AetherError::ContextInjection("c".to_string())), "Context injection failed: c");
    assert_eq!(m(AetherError::State("s".to_string())), "State management error: s");
    assert_eq!(m(AetherError::Io("disk".to_string())), "disk");
}

#[test]
fn test_error_info_from_config_error() {
    let err = AetherError::Config("test config error".to_string());
    let info: ErrorInfo = ErrorInfo::from(err);
    assert_eq!(info.code, "CONFIG_ERROR");
    assert_eq!(info.message, "test config error");
}

#[test]
fn test_error_info_from_jj_error() {
    let err = AetherError::Jj {
        message: "jj failed".to_string(),
        exit_code: 1,
    };
    let info: ErrorInfo = ErrorInfo::from(err);
    assert_eq!(info.code, "JJ_FAILED_1");
}

#[test]
fn error_info_codes() {
    assert_eq!(ErrorInfo::from(AetherError::Backend("m".to_string())).code, "BACKEND_ERROR");
    assert_eq!(
        ErrorInfo::from(AetherError::PortAllocation("m".to_string())).code,
        "PORT_ALLOCATION_ERROR"
    );
    assert_eq!(
        ErrorInfo::from(AetherError::ContextInjection("m".to_string())).code,
        "CONTEXT_INJECTION_ERROR"
    );
    assert_eq!(ErrorInfo::from(AetherError::State("m".to_string())).code, "STATE_ERROR");
    let info = ErrorInfo::from(AetherError::Json("bad json".to_string()));
    assert_eq!(info.code, "UNKNOWN_ERROR");
    assert_eq!(info.message, "bad json");
    assert_eq!(
        ErrorInfo::from(AetherError::Jj { message: String::new(), exit_code: -1 }).code,
        "JJ_FAILED_-1"
    );
}

#[test]
fn output_format_selects_json() {
    let cli = Cli { output: OutputFormat::Json, config: None, command: Commands::Status };
    assert!(cli.is_json());
    let cli = Cli { output: OutputFormat::Human, config: None, command: Commands::List };
    assert!(!cli.is_json());
}

#[test]
fn orphans_are_containers_of_unregistered_namespaces() {
    let labels = |ns: &str, svc: &str| {
        Some(vec![
            ("aether.namespace".to_string(), ns.to_string()),
            ("aether.service".to_string(), svc.to_string()),
        ])
    };
    let containers = vec![
        ContainerSummary { id: Some("1".to_string()), labels: labels("aether-a", "pg"), state: None, ports: vec![] },
        ContainerSummary { id: Some("2".to_string()), labels: labels("aether-gone", "pg"), state: None, ports: vec![] },
        ContainerSummary { id: None, labels: labels("aether-old", "redis"), state: None, ports: vec![] },
        ContainerSummary { id: Some("4".to_string()), labels: None, state: None, ports: vec![] },
    ];
    let orphans = find_orphans(&vec!["aether-a".to_string()], &containers);
    assert_eq!(orphans.len(), 2);
    assert_eq!(orphans[0].id, "2");
    assert_eq!(orphans[0].namespace, "aether-gone");
    assert_eq!(orphans[0].service, "pg");
    assert_eq!(orphans[1].id, "");
    assert_eq!(orphans[1].service, "redis");
}

#[test]
fn short_ids_and_cleanup_reports() {
    assert_eq!(short_id("0123456789abcdef"), "0123456789ab");
    assert_eq!(short_id("abc"), "abc");
    let r = cleanup_report(0, true, vec![]);
    assert_eq!(r.status, "clean");
    let r = cleanup_report(2, false, vec!["x".to_string()]);
    assert_eq!(r.status, "dry_run");
    assert!(r.removed.is_empty());
    let r = cleanup_report(1, true, vec!["abc".to_string()]);
    assert_eq!(r.status, "cleaned");
    assert_eq!(r.orphaned_count, 1);
    assert_eq!(r.removed, vec!["abc".to_string()]);
}

#[test]
fn reports_of_operations() {
    let ok = run_report("postgres", &exec_result(Some(0), "1".to_string(), String::new()));
    assert_eq!(ok.status, "ok");
    let failed = run_report("postgres", &exec_result(Some(2), String::new(), "bad".to_string()));
    assert_eq!(failed.status, "error");
    assert_eq!(failed.exit_code, 2);
    assert_eq!(failed.stderr, "bad");

    let handles = vec![ResourceHandle {
        service_name: "postgres".to_string(),
        container_id: "abc".to_string(),
        image: "postgres:15".to_string(),
        port_mappings: vec![(5432, 32891)],
    }];
    let added = workspace_add_report("feature-x", "/tmp/feature-x", "docker", "aether-feature-x", &handles);
    assert_eq!(added.status, "ready");
    assert_eq!(added.operation, "workspace_add");
    let info = added.workspace.unwrap();
    assert_eq!(info.namespace, "aether-feature-x");
    assert_eq!(info.resources[0].port_mappings, vec![(5432, 32891)]);
    assert_eq!(workspace_forget_report().status, "removed");

    let ws = WorkspaceState {
        name: "feature-x".to_string(),
        path: "/tmp/feature-x".to_string(),
        namespace: "aether-feature-x".to_string(),
        backend_type: "docker".to_string(),
        created_at: "t".to_string(),
        resources: vec![],
    };
    let resources = vec![ResourceStatus {
        service_name: "postgres".to_string(),
        container_id: "abc123".to_string(),
        status: "running".to_string(),
        port_mappings: vec![(5432, 32891)],
    }];
    let report = status_report(Some(("feature-x".to_string(), ws)), &resources, None);
    assert_eq!(report.namespace, Some("aether-feature-x".to_string()));
    assert_eq!(report.resources[0].status, "running");
    let empty = status_report(None, &resources, Some("jj".to_string()));
    assert!(empty.resources.is_empty());
    assert_eq!(empty.jj_status, Some("jj".to_string()));
}
