use aether::backend::{
    container_labels, container_name, exec_result, handle_for, namespace_filter, namespace_for,
    network_name, pick_container, plan_container, plan_containers, plan_network, removal_targets,
    network_missing, service_filter, statuses, tail_option, ContainerSummary, ServiceSpec,
};
use aether::error::AetherError;

fn postgres_spec() -> ServiceSpec {
    ServiceSpec {
        name: "postgres".to_string(),
        image: "postgres:15".to_string(),
        ports: vec![5432],
        env: vec![("POSTGRES_PASSWORD".to_string(), "secret".to_string())],
        volumes: vec![],
        command: None,
        port_mappings: vec![(5432, 32891)],
        depends_on: vec![],
        cpu_limit: Some(500),
        cpu_reservation: Some(250),
        memory_limit: Some(536870912),
        memory_reservation: None,
    }
}

fn pairs(v: &[(&str, &str)]) -> Vec<(String, String)> {
    v.iter().map(|(a, b)| (a.to_string(), b.to_string())).collect()
}

#[test]
fn namespace_and_container_names() {
    let ns = namespace_for("feature-x");
    assert_eq!(ns, "aether-feature-x");
    assert_eq!(container_name(&ns, "postgres"), "aether-feature-x-postgres");
    assert_eq!(network_name(&ns), "aether-feature-x-network");
    assert_eq!(namespace_filter(&ns), "aether.workspace=aether-feature-x");
    assert_eq!(service_filter("postgres"), "aether.service=postgres");
}

#[test]
fn labels_of_containers_and_networks() {
    assert_eq!(
        container_labels("aether-ws1", "postgres"),
        pairs(&[
            ("aether.managed", "true"),
            ("aether.workspace", "aether-ws1"),
            ("aether.namespace", "aether-ws1"),
            ("aether.service", "postgres"),
        ])
    );
    let net = plan_network("aether-ws1");
    assert_eq!(net.name, "aether-ws1-network");
    assert_eq!(net.labels, pairs(&[("aether.managed", "true"), ("aether.namespace", "aether-ws1")]));
}

#[test]
fn container_plan_follows_the_service_spec() {
    let plan = plan_container("aether-ws1", &postgres_spec());
    assert_eq!(plan.container_name, "aether-ws1-postgres");
    assert_eq!(plan.image, "postgres:15");
    assert_eq!(plan.env, vec!["POSTGRES_PASSWORD=secret".to_string()]);
    assert_eq!(plan.exposed_ports, vec!["5432/tcp".to_string()]);
    assert_eq!(plan.port_bindings, pairs(&[("5432/tcp", "32891")]));
    assert_eq!(plan.binds, None);
    assert_eq!(plan.network, "aether-ws1-network");
    assert_eq!(plan.alias, "postgres");
    assert_eq!(plan.cpu_quota, Some(50000));
    assert_eq!(plan.cpu_period, Some(100000));
    assert_eq!(plan.cpu_shares, Some(256));
    assert_eq!(plan.memory, Some(536870912));
    assert_eq!(plan.memory_reservation, None);
    assert_eq!(plan.command, None);
}

#[test]
fn container_plan_without_limits_and_with_volumes() {
    let mut spec = postgres_spec();
    spec.cpu_limit = None;
    spec.cpu_reservation = None;
    spec.volumes = vec!["/data:/var/lib/postgresql/data".to_string()];
    spec.command = Some(vec!["sleep".to_string(), "300".to_string()]);
    let plans = plan_containers("ns", &vec![spec.clone(), spec]);
    assert_eq!(plans.len(), 2);
    assert_eq!(plans[0].cpu_quota, None);
    assert_eq!(plans[0].cpu_period, None);
    assert_eq!(plans[0].cpu_shares, None);
    assert_eq!(plans[0].binds, Some(vec!["/data:/var/lib/postgresql/data".to_string()]));
    assert_eq!(plans[1].command, Some(vec!["sleep".to_string(), "300".to_string()]));
}

#[test]
fn handles_keep_spec_fields() {
    let h = handle_for(&postgres_spec(), "cid".to_string());
    assert_eq!(h.service_name, "postgres");
    assert_eq!(h.container_id, "cid");
    assert_eq!(h.image, "postgres:15");
    assert_eq!(h.port_mappings, vec![(5432, 32891)]);
}

#[test]
fn lookup_takes_first_match_or_fails() {
    let ids = vec![Some("a".to_string()), Some("b".to_string())];
    assert_eq!(pick_container("ns", "svc", &ids), Ok("a".to_string()));
    assert_eq!(
        pick_container("ns", "svc", &vec![]),
        Err(AetherError::Backend("Service 'svc' not found in namespace 'ns'".to_string()))
    );
    assert!(pick_container("ns", "svc", &vec![None, Some("b".to_string())]).is_err());
}

#[test]
fn removal_targets_skip_missing_ids() {
    let ids = vec![Some("a".to_string()), None, Some("c".to_string())];
    assert_eq!(removal_targets(&ids), vec!["a".to_string(), "c".to_string()]);
    assert!(removal_targets(&vec![]).is_empty());
}

#[test]
fn statuses_report_labelled_containers() {
    let containers = vec![
        ContainerSummary {
            id: Some("c1".to_string()),
            labels: Some(pairs(&[("aether.service", "postgres")])),
            state: Some("running".to_string()),
            ports: vec![(5432, Some(32891)), (9999, None)],
        },
        ContainerSummary {
            id: Some("c2".to_string()),
            labels: Some(vec![]),
            state: None,
            ports: vec![],
        },
        ContainerSummary { id: None, labels: Some(vec![]), state: None, ports: vec![] },
        ContainerSummary { id: Some("c4".to_string()), labels: None, state: None, ports: vec![] },
    ];
    let st = statuses(&containers);
    assert_eq!(st.len(), 2);
    assert_eq!(st[0].service_name, "postgres");
    assert_eq!(st[0].container_id, "c1");
    assert_eq!(st[0].status, "running");
    assert_eq!(st[0].port_mappings, vec![(5432, 32891)]);
    assert_eq!(st[1].service_name, "unknown");
    assert_eq!(st[1].status, "unknown");
}

#[test]
fn status_after_teardown_is_empty() {
    assert!(statuses(&vec![]).is_empty());
}

#[test]
fn log_tail_and_exec_results() {
    assert_eq!(tail_option(Some(100)), "100");
    assert_eq!(tail_option(None), "all");
    let r = exec_result(Some(3), "out".to_string(), "warn".to_string());
    assert_eq!(r.exit_code, 3);
    assert_eq!(r.stdout, "out");
    assert_eq!(r.stderr, "warn");
    assert_eq!(exec_result(None, String::new(), String::new()).exit_code, -1);
    assert!(network_missing(&vec![]));
    assert!(!network_missing(&vec!["aether-ws1-network".to_string()]));
}
