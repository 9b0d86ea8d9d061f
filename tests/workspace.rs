use aether::backend::{namespace_for, plan_containers, plan_network};
use aether::config::{parse_port_str, AetherConfig, BackendConfig, InjectionConfig, ServiceConfig};
use aether::error::AetherError;
use aether::inject::ContextInjector;
use aether::backend::handle_for;
use aether::ports::PortAllocator;
use aether::provision::{build_service_specs, checked_total_ports, total_ports, workspace_name, workspace_record};
use aether::repo::{find_config, find_repo_root};
use aether::state::StateManager;
use std::path::Path;

fn config() -> AetherConfig {
    AetherConfig {
        backend: BackendConfig::Docker { socket: None },
        services: vec![(
            "postgres".to_string(),
            ServiceConfig {
                image: "postgres:15".to_string(),
                ports: vec!["5432".to_string()],
                env: vec![],
                volumes: vec![],
                command: None,
                depends_on: vec![],
                cpu_limit: None,
                cpu_reservation: None,
                memory_limit: None,
                memory_reservation: None,
            },
        )],
        injection: Some(InjectionConfig {
            file: ".env".to_string(),
            template: "DB_PORT={{services.postgres.ports.5432}}".to_string(),
        }),
    }
}

#[test]
fn test_find_repo_root_not_in_repo() {
    let ancestors: Vec<String> = Path::new("/tmp")
        .ancestors()
        .map(|p| p.to_string_lossy().to_string())
        .collect();
    let marked: Vec<bool> = Path::new("/tmp")
        .ancestors()
        .map(|p| p.join(".jj").is_dir())
        .collect();
    let result = find_repo_root(&ancestors, &marked);
    assert!(result.is_err());
}

#[test]
fn repo_root_is_first_marked_ancestor() {
    let ancestors = vec!["/a/b/c".to_string(), "/a/b".to_string(), "/a".to_string(), "/".to_string()];
    assert_eq!(find_repo_root(&ancestors, &vec![false, true, true, false]), Ok("/a/b".to_string()));
    assert_eq!(
        find_repo_root(&ancestors, &vec![false; 4]),
        Err(AetherError::Config("Not in a jj repository".to_string()))
    );
}

#[test]
fn config_search_stops_at_repo_root() {
    let ancestors = vec!["/a/b".to_string(), "/a".to_string(), "/".to_string()];
    assert_eq!(
        find_config(&ancestors, &vec![false, true, false], &vec![false, false, false]),
        Ok("/a/aether.toml".to_string())
    );
    assert_eq!(
        find_config(&ancestors, &vec![true, false, false], &vec![true, false, false]),
        Ok("/a/b/aether.toml".to_string())
    );
    assert_eq!(
        find_config(&ancestors, &vec![false, false, true], &vec![false, true, false]),
        Err(AetherError::Config("aether.toml not found in repo".to_string()))
    );
    assert_eq!(
        find_config(&ancestors, &vec![false; 3], &vec![false; 3]),
        Err(AetherError::Config("aether.toml not found".to_string()))
    );
}

#[test]
fn ports_are_read_like_u16() {
    assert_eq!(parse_port_str("5432"), Some(5432));
    assert_eq!(parse_port_str("+80"), Some(80));
    assert_eq!(parse_port_str("65535"), Some(65535));
    assert_eq!(parse_port_str("65536"), None);
    assert_eq!(parse_port_str(""), None);
    assert_eq!(parse_port_str("+"), None);
    assert_eq!(parse_port_str("-1"), None);
    assert_eq!(parse_port_str("80a"), None);
    assert_eq!(parse_port_str("0"), Some(0));
}

#[test]
fn service_specs_take_allocated_ports_in_order() {
    let mut cfg = config();
    cfg.services.push((
        "redis".to_string(),
        ServiceConfig {
            image: "redis:7".to_string(),
            ports: vec!["6379".to_string(), "16379".to_string()],
            env: vec![("A".to_string(), "1".to_string())],
            volumes: vec![],
            command: None,
            depends_on: vec!["postgres".to_string()],
            cpu_limit: Some(1500),
            cpu_reservation: None,
            memory_limit: Some(268435456),
            memory_reservation: None,
        },
    ));
    assert_eq!(total_ports(&cfg), 3);
    let specs = build_service_specs(&cfg, &vec![30001, 30002, 30003]).unwrap();
    assert_eq!(specs.len(), 2);
    assert_eq!(specs[0].port_mappings, vec![(5432, 30001)]);
    assert_eq!(specs[1].ports, vec![6379, 16379]);
    assert_eq!(specs[1].port_mappings, vec![(6379, 30002), (16379, 30003)]);
    assert_eq!(specs[1].env, vec![("A".to_string(), "1".to_string())]);
    assert_eq!(specs[1].depends_on, vec!["postgres".to_string()]);
    assert_eq!(specs[1].cpu_limit, Some(1500));
    assert_eq!(specs[1].memory_limit, Some(268435456));
    assert_eq!(specs[0].cpu_limit, None);
}

#[test]
fn invalid_port_is_configuration_error() {
    let mut cfg = config();
    cfg.services[0].1.ports = vec!["5432".to_string(), "http".to_string(), "x".to_string()];
    assert_eq!(
        build_service_specs(&cfg, &vec![1, 2, 3]).unwrap_err(),
        AetherError::Config("Invalid port: http".to_string())
    );
}

#[test]
fn provisioning_ws1_end_to_end_plan() {
    let cfg = config();
    let namespace = namespace_for("ws1");
    assert_eq!(namespace, "aether-ws1");

    let mut allocator = PortAllocator::new();
    let next = std::cell::Cell::new(32891u16);
    let probe = || {
        let p = next.get();
        next.set(p + 1);
        Ok(p)
    };
    let allocated = allocator.allocate(total_ports(&cfg), probe).unwrap();
    let specs = build_service_specs(&cfg, &allocated).unwrap();

    assert_eq!(plan_network(&namespace).name, "aether-ws1-network");
    let plans = plan_containers(&namespace, &specs);
    assert_eq!(plans.len(), 1);
    assert!(plans[0].labels.contains(&("aether.namespace".to_string(), "aether-ws1".to_string())));
    assert!(plans[0].labels.contains(&("aether.service".to_string(), "postgres".to_string())));

    let handles = vec![handle_for(&specs[0], "container-1".to_string())];
    let injection = cfg.injection.as_ref().unwrap();
    let rendered = ContextInjector::new().render(&injection.template, &handles).unwrap();
    assert_eq!(rendered, format!("DB_PORT={}", allocated[0]));

    let manager = StateManager::new("/repo");
    let record = workspace_record("ws1", "/repo/ws1", &namespace, "docker", "t", &handles);
    let stored = manager.register_workspace(None, record);
    let entry = manager.get_workspace(&Some(stored.clone()), "ws1").unwrap();
    assert_eq!(entry.resources.len(), 1);

    let stored = manager.unregister_workspace(Some(stored), "ws1");
    assert!(manager.get_workspace(&Some(stored), "ws1").is_none());
}

#[test]
fn workspace_name_is_final_component() {
    assert_eq!(workspace_name("../test-ws"), Ok("test-ws".to_string()));
    assert_eq!(workspace_name("feature-x"), Ok("feature-x".to_string()));
    assert_eq!(workspace_name("/tmp/ws1/"), Ok("ws1".to_string()));
    assert_eq!(workspace_name("a/./"), Ok("a".to_string()));
    assert_eq!(workspace_name("a/.."), Err(AetherError::Config("Invalid destination".to_string())));
    assert_eq!(workspace_name("/"), Err(AetherError::Config("Invalid destination".to_string())));
    assert_eq!(workspace_name("."), Err(AetherError::Config("Invalid destination".to_string())));
    assert_eq!(workspace_name(""), Err(AetherError::Config("Invalid destination".to_string())));
    for p in ["../test-ws", "x/y/z", "/a/b/", "a/.", "./b", ".hidden", "a..b"] {
        let expected = Path::new(p).file_name().map(|n| n.to_string_lossy().to_string());
        assert_eq!(workspace_name(p).ok(), expected, "{}", p);
    }
}

#[test]
fn checked_total_counts_every_port() {
    assert_eq!(checked_total_ports(&config()), Some(1));
}
