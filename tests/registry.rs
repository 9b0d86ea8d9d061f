use aether::backend::ResourceHandle;
use aether::provision::workspace_record;
use aether::state::{join, ResourceInfo, StateManager, WorkspaceRegistry, WorkspaceState};

fn workspace(name: &str) -> WorkspaceState {
    WorkspaceState {
        name: name.to_string(),
        path: "/tmp/test".to_string(),
        namespace: "aether-test".to_string(),
        backend_type: "docker".to_string(),
        created_at: "2026-01-28T00:00:00Z".to_string(),
        resources: vec![],
    }
}

#[test]
fn test_register_and_get_workspace() {
    let manager = StateManager::new("/tmp/repo");

    let workspace = WorkspaceState {
        name: "test-ws".to_string(),
        path: "/tmp/test".to_string(),
        namespace: "aether-test".to_string(),
        backend_type: "docker".to_string(),
        created_at: "2026-01-28T00:00:00Z".to_string(),
        resources: vec![],
    };

    let stored = manager.register_workspace(None, workspace);

    let retrieved = manager.get_workspace(&Some(stored), "test-ws");
    assert!(retrieved.is_some());
    assert_eq!(retrieved.unwrap().name, "test-ws");
}

#[test]
fn test_list_workspaces() {
    let manager = StateManager::new("/tmp/repo");

    let workspaces = manager.list_workspaces(&None);
    assert_eq!(workspaces.len(), 0);
}

#[test]
fn test_state_management() {
    let manager = StateManager::new("/tmp/repo");

    let workspace = workspace("test");

    let stored = manager.register_workspace(None, workspace);

    let retrieved = manager.get_workspace(&Some(stored.clone()), "test");
    assert!(retrieved.is_some());

    let stored = manager.unregister_workspace(Some(stored), "test");
    let removed = manager.get_workspace(&Some(stored), "test");
    assert!(removed.is_none());
}

#[test]
fn state_paths_under_repo_root() {
    let manager = StateManager::new("/home/me/repo");
    assert_eq!(manager.state_file(), "/home/me/repo/.aether/state.json");
    assert_eq!(manager.lock_file(), "/home/me/repo/.aether/state.lock");
    assert_eq!(manager.tmp_file(), "/home/me/repo/.aether/state.tmp");
    assert_eq!(join("/", "aether.toml"), "/aether.toml");
    assert_eq!(join("", "aether.toml"), "aether.toml");
}

#[test]
fn fresh_document_has_version_one() {
    let manager = StateManager::new("/r");
    let reg = manager.load_registry(None);
    assert_eq!(reg.version, "1.0");
    assert!(reg.workspaces.is_empty());
    let stored = manager.unregister_workspace(None, "absent");
    assert_eq!(stored.version, "1.0");
    assert!(stored.workspaces.is_empty());
}

#[test]
fn round_trip_returns_equal_workspace() {
    let manager = StateManager::new("/r");
    let mut ws = workspace("ws1");
    ws.resources.push(ResourceInfo {
        service_name: "postgres".to_string(),
        container_id: "abc123".to_string(),
        image: "postgres:15".to_string(),
        port_mappings: vec![(5432, 32891)],
    });
    let stored = manager.register_workspace(None, ws.clone());
    let got = manager.get_workspace(&Some(stored), "ws1").unwrap();
    assert_eq!(got.name, ws.name);
    assert_eq!(got.path, ws.path);
    assert_eq!(got.namespace, ws.namespace);
    assert_eq!(got.backend_type, ws.backend_type);
    assert_eq!(got.created_at, ws.created_at);
    assert_eq!(got.resources.len(), 1);
    assert_eq!(got.resources[0].container_id, "abc123");
    assert_eq!(got.resources[0].port_mappings, vec![(5432, 32891)]);
}

#[test]
fn two_registrations_with_distinct_names_are_both_listed() {
    let manager = StateManager::new("/r");
    let stored = manager.register_workspace(None, workspace("a"));
    let stored = manager.register_workspace(Some(stored), workspace("b"));
    assert!(stored.has_unique_names());
    let mut names: Vec<String> = manager
        .list_workspaces(&Some(stored))
        .into_iter()
        .map(|w| w.name)
        .collect();
    names.sort();
    assert_eq!(names, vec!["a".to_string(), "b".to_string()]);
}

#[test]
fn registering_same_name_replaces_entry() {
    let manager = StateManager::new("/r");
    let stored = manager.register_workspace(None, workspace("a"));
    let mut again = workspace("a");
    again.path = "/elsewhere".to_string();
    let stored = manager.register_workspace(Some(stored), again);
    assert_eq!(stored.workspaces.len(), 1);
    assert_eq!(manager.get_workspace(&Some(stored), "a").unwrap().path, "/elsewhere");
}

#[test]
fn duplicate_names_are_detected() {
    let reg = WorkspaceRegistry {
        version: "1.0".to_string(),
        workspaces: vec![workspace("a"), workspace("a")],
    };
    assert!(!reg.has_unique_names());
}

#[test]
fn unregistered_workspace_is_gone() {
    let manager = StateManager::new("/r");
    let mut reg = WorkspaceRegistry::new();
    reg.register(workspace("ws1"));
    reg.register(workspace("ws2"));
    reg.unregister("ws1");
    assert!(reg.get("ws1").is_none());
    assert!(reg.get("ws2").is_some());
    assert_eq!(manager.list_workspaces(&Some(reg)).len(), 1);
}

#[test]
fn workspace_record_keeps_every_resource() {
    let handles = vec![ResourceHandle {
        service_name: "postgres".to_string(),
        container_id: "c1".to_string(),
        image: "postgres:15".to_string(),
        port_mappings: vec![(5432, 32891)],
    }];
    let ws = workspace_record("ws1", "/w/ws1", "aether-ws1", "docker", "now", &handles);
    assert_eq!(ws.name, "ws1");
    assert_eq!(ws.namespace, "aether-ws1");
    assert_eq!(ws.resources.len(), 1);
    assert_eq!(ws.resources[0].service_name, "postgres");
    assert_eq!(ws.resources[0].port_mappings, vec![(5432, 32891)]);
}
