use aether::backend::{namespace_for, ServiceSpec};
use aether::engine::MemoryEngine;
use aether::inject::ContextInjector;
use aether::state::StateManager;
use aether::provision::workspace_record;

fn spec(name: &str, image: &str, ports: Vec<(u16, u16)>) -> ServiceSpec {
    ServiceSpec {
        name: name.to_string(),
        image: image.to_string(),
        ports: ports.iter().map(|p| p.0).collect(),
        env: vec![],
        volumes: vec![],
        command: None,
        port_mappings: ports,
        depends_on: vec![],
        cpu_limit: None,
        cpu_reservation: None,
        memory_limit: None,
        memory_reservation: None,
    }
}

fn label<'a>(labels: &'a [(String, String)], key: &str) -> Option<&'a str> {
    labels.iter().find(|(k, _)| k == key).map(|(_, v)| v.as_str())
}

#[test]
fn provisioning_ws1_creates_one_labelled_container() {
    let mut engine = MemoryEngine::new();
    let ns = namespace_for("ws1");
    let handles = engine.provision(&ns, &vec![spec("postgres", "postgres:15", vec![(5432, 32891)])]);
    assert_eq!(handles.len(), 1);
    let containers = engine.containers();
    assert_eq!(containers.len(), 1);
    let c = &containers[0];
    assert_eq!(c.name, "aether-ws1-postgres");
    assert!(c.running);
    assert_eq!(label(&c.labels, "aether.namespace"), Some("aether-ws1"));
    assert_eq!(label(&c.labels, "aether.service"), Some("postgres"));
    assert_eq!(handles[0].container_id, c.id);

    let status = engine.status(&ns);
    assert_eq!(status.len(), 1);
    assert_eq!(status[0].status, "running");
    assert_eq!(status[0].service_name, "postgres");

    let rendered = ContextInjector::new()
        .render("DB_PORT={{services.postgres.ports.5432}}", &handles)
        .unwrap();
    assert_eq!(rendered, "DB_PORT=32891");

    let manager = StateManager::new("/repo");
    let record = workspace_record("ws1", "/repo/ws1", &ns, "docker", "t", &handles);
    let stored = manager.register_workspace(None, record);
    assert_eq!(manager.get_workspace(&Some(stored), "ws1").unwrap().resources.len(), 1);
}

#[test]
fn deprovisioning_ws1_leaves_no_status_and_keeps_others() {
    let mut engine = MemoryEngine::new();
    engine.provision("aether-ws1", &vec![spec("postgres", "postgres:15", vec![(5432, 1)])]);
    engine.provision("aether-ws2", &vec![spec("redis", "redis:7", vec![(6379, 2)])]);
    engine.provision("aether-ws1", &vec![spec("redis", "redis:7", vec![])]);
    assert_eq!(engine.status("aether-ws1").len(), 2);

    engine.deprovision("aether-ws1");
    assert!(engine.status("aether-ws1").is_empty());
    assert_eq!(engine.status("aether-ws2").len(), 1);
    assert_eq!(engine.containers().len(), 1);
}
