//! The container-engine side of provisioning: naming and labelling rules,
//! the plan of each container and of the namespace network, and the
//! interpretation of what the engine reports back.
//!
//! The engine itself is driven elsewhere; everything here is a function from
//! plain values to plain values.

use vstd::prelude::*;
use crate::error::AetherError;
use crate::text::{concat, concat3, decimal, decimal_string};

verus! {

/// Declarative description of one service to provision.
///
/// CPU amounts are in thousandths of a core; memory amounts in bytes.
#[derive(Debug, Clone)]
pub struct ServiceSpec {
    pub name: String,
    pub image: String,
    pub ports: Vec<u16>,
    pub env: Vec<(String, String)>,
    pub volumes: Vec<String>,
    pub command: Option<Vec<String>>,
    /// Internal port to external port.
    pub port_mappings: Vec<(u16, u16)>,
    pub depends_on: Vec<String>,
    pub cpu_limit: Option<u32>,
    pub cpu_reservation: Option<u32>,
    pub memory_limit: Option<i64>,
    pub memory_reservation: Option<i64>,
}

/// A provisioned service.
#[derive(Debug, Clone)]
pub struct ResourceHandle {
    pub service_name: String,
    pub container_id: String,
    pub image: String,
    pub port_mappings: Vec<(u16, u16)>,
}

/// A point-in-time observation of one container.
#[derive(Debug, Clone)]
pub struct ResourceStatus {
    pub service_name: String,
    pub container_id: String,
    pub status: String,
    /// Private port to public port, one entry per published binding.
    pub port_mappings: Vec<(u16, u16)>,
}

/// The outcome of a command run inside a container.
#[derive(Debug, Clone)]
pub struct ContainerExecResult {
    pub exit_code: i64,
    pub stdout: String,
    pub stderr: String,
}

/// What the engine lists of one container.
#[derive(Debug, Clone)]
pub struct ContainerSummary {
    pub id: Option<String>,
    pub labels: Option<Vec<(String, String)>>,
    pub state: Option<String>,
    /// Private port and, when published, public port.
    pub ports: Vec<(u16, Option<u16>)>,
}

/// Everything the engine needs to create and start one container.
#[derive(Debug, Clone)]
pub struct ContainerPlan {
    pub container_name: String,
    pub service_name: String,
    pub image: String,
    /// `KEY=value` entries.
    pub env: Vec<String>,
    pub labels: Vec<(String, String)>,
    /// `<port>/tcp` entries.
    pub exposed_ports: Vec<String>,
    /// `<internal>/tcp` to the published host port, bound on every interface.
    pub port_bindings: Vec<(String, String)>,
    pub binds: Option<Vec<String>>,
    pub network: String,
    /// The in-network DNS alias.
    pub alias: String,
    pub command: Option<Vec<String>>,
    pub cpu_quota: Option<i64>,
    pub cpu_period: Option<i64>,
    pub cpu_shares: Option<i64>,
    pub memory: Option<i64>,
    pub memory_reservation: Option<i64>,
}

/// The namespace network and its labels.
#[derive(Debug, Clone)]
pub struct NetworkPlan {
    pub name: String,
    pub labels: Vec<(String, String)>,
}

/// The views of a list of string pairs.
pub open spec fn pairs_view(v: Seq<(String, String)>) -> Seq<(Seq<char>, Seq<char>)> {
    v.map_values(|p: (String, String)| (p.0@, p.1@))
}

/// The views of a list of strings.
pub open spec fn strings_view(v: Seq<String>) -> Seq<Seq<char>> {
    v.map_values(|s: String| s@)
}

/// The namespace of a workspace.
pub open spec fn spec_namespace(workspace: Seq<char>) -> Seq<char> {
    "aether-"@ + workspace
}

/// The network of a namespace.
pub open spec fn spec_network_name(namespace: Seq<char>) -> Seq<char> {
    namespace + "-network"@
}

/// The container of one service in a namespace.
pub open spec fn spec_container_name(namespace: Seq<char>, service: Seq<char>) -> Seq<char> {
    namespace + "-"@ + service
}

/// The labels every container of a namespace carries.
pub open spec fn spec_container_labels(namespace: Seq<char>, service: Seq<char>) -> Seq<
    (Seq<char>, Seq<char>),
> {
    seq![
        ("aether.managed"@, "true"@),
        ("aether.workspace"@, namespace),
        ("aether.namespace"@, namespace),
        ("aether.service"@, service),
    ]
}

/// The labels of a namespace network.
pub open spec fn spec_network_labels(namespace: Seq<char>) -> Seq<(Seq<char>, Seq<char>)> {
    seq![("aether.managed"@, "true"@), ("aether.namespace"@, namespace)]
}

/// The engine's name of a TCP port.
pub open spec fn tcp_port(p: u16) -> Seq<char> {
    decimal(p as nat) + "/tcp"@
}

/// The value of the first label with the given key.
pub open spec fn label_of(labels: Seq<(Seq<char>, Seq<char>)>, key: Seq<char>) -> Option<
    Seq<char>,
>
    decreases labels.len(),
{
    if labels.len() == 0 {
        None
    } else if labels[0].0 == key {
        Some(labels[0].1)
    } else {
        label_of(labels.drop_first(), key)
    }
}

/// The CPU quota, per period of 100000, for a limit in thousandths of a core.
pub open spec fn spec_cpu_quota(limit: Option<u32>) -> Option<i64> {
    match limit {
        Some(m) => Some((m * 100) as i64),
        None => None,
    }
}

/// The relative CPU weight (1024 for a whole core) for a reservation in thousandths of a core.
pub open spec fn spec_cpu_shares(reservation: Option<u32>) -> Option<i64> {
    match reservation {
        Some(m) => Some((m * 1024 / 1000) as i64),
        None => None,
    }
}

/// `plan` is the container plan of `spec` in `namespace`.
pub open spec fn is_container_plan(plan: ContainerPlan, namespace: Seq<char>, spec: ServiceSpec) -> bool {
    &&& plan.container_name@ == spec_container_name(namespace, spec.name@)
    &&& plan.service_name@ == spec.name@
    &&& plan.image@ == spec.image@
    &&& plan.env@.len() == spec.env@.len()
    &&& forall|i: int|
        0 <= i < spec.env@.len() ==> #[trigger] plan.env@[i]@ == spec.env@[i].0@ + "="@
            + spec.env@[i].1@
    &&& pairs_view(plan.labels@) == spec_container_labels(namespace, spec.name@)
    &&& plan.exposed_ports@.len() == spec.ports@.len()
    &&& forall|i: int|
        0 <= i < spec.ports@.len() ==> #[trigger] plan.exposed_ports@[i]@ == tcp_port(
            spec.ports@[i],
        )
    &&& plan.port_bindings@.len() == spec.port_mappings@.len()
    &&& forall|i: int|
        0 <= i < spec.port_mappings@.len() ==> (#[trigger] plan.port_bindings@[i]).0@ == tcp_port(
            spec.port_mappings@[i].0,
        ) && plan.port_bindings@[i].1@ == decimal(spec.port_mappings@[i].1 as nat)
    &&& match plan.binds {
        Some(b) => spec.volumes@.len() > 0 && strings_view(b@) == strings_view(spec.volumes@),
        None => spec.volumes@.len() == 0,
    }
    &&& plan.network@ == spec_network_name(namespace)
    &&& plan.alias@ == spec.name@
    &&& match (plan.command, spec.command) {
        (Some(a), Some(b)) => strings_view(a@) == strings_view(b@),
        (None, None) => true,
        _ => false,
    }
    &&& plan.cpu_quota == spec_cpu_quota(spec.cpu_limit)
    &&& plan.cpu_period == (if spec.cpu_limit is Some { Some(100000i64) } else { None })
    &&& plan.cpu_shares == spec_cpu_shares(spec.cpu_reservation)
    &&& plan.memory == spec.memory_limit
    &&& plan.memory_reservation == spec.memory_reservation
}

/// The namespace of a workspace: `aether-<workspace>`.
pub fn namespace_for(workspace: &str) -> (r: String)
    ensures
        r@ == spec_namespace(workspace@),
{
    concat("aether-", workspace)
}

/// The network of a namespace: `<namespace>-network`.
pub fn network_name(namespace: &str) -> (r: String)
    ensures
        r@ == spec_network_name(namespace@),
{
    concat(namespace, "-network")
}

/// The container of a service: `<namespace>-<service>`.
pub fn container_name(namespace: &str, service: &str) -> (r: String)
    ensures
        r@ == spec_container_name(namespace@, service@),
{
    concat3(namespace, "-", service)
}

fn label(key: &str, value: &str) -> (r: (String, String))
    ensures
        r.0@ == key@,
        r.1@ == value@,
{
    (String::from_str(key), String::from_str(value))
}

/// The discovery labels of a service's container.
pub fn container_labels(namespace: &str, service: &str) -> (r: Vec<(String, String)>)
    ensures
        pairs_view(r@) == spec_container_labels(namespace@, service@),
{
    let mut v: Vec<(String, String)> = Vec::new();
    v.push(label("aether.managed", "true"));
    v.push(label("aether.workspace", namespace));
    v.push(label("aether.namespace", namespace));
    v.push(label("aether.service", service));
    assert(pairs_view(v@) =~= spec_container_labels(namespace@, service@));
    v
}

/// The label filter that selects every container of a namespace.
pub fn namespace_filter(namespace: &str) -> (r: String)
    ensures
        r@ == "aether.workspace="@ + namespace@,
{
    concat("aether.workspace=", namespace)
}

/// The label filter that selects the containers of one service.
pub fn service_filter(service: &str) -> (r: String)
    ensures
        r@ == "aether.service="@ + service@,
{
    concat("aether.service=", service)
}

/// The network of a namespace, with its labels.
pub fn plan_network(namespace: &str) -> (r: NetworkPlan)
    ensures
        r.name@ == spec_network_name(namespace@),
        pairs_view(r.labels@) == spec_network_labels(namespace@),
{
    let mut labels: Vec<(String, String)> = Vec::new();
    labels.push(label("aether.managed", "true"));
    labels.push(label("aether.namespace", namespace));
    assert(pairs_view(labels@) =~= spec_network_labels(namespace@));
    NetworkPlan { name: network_name(namespace), labels }
}

fn tcp_port_string(p: u16) -> (r: String)
    ensures
        r@ == tcp_port(p),
{
    let d = decimal_string(p as u64);
    concat(d.as_str(), "/tcp")
}

pub fn copy_strings(v: &Vec<String>) -> (r: Vec<String>)
    ensures
        strings_view(r@) == strings_view(v@),
{
    let mut r: Vec<String> = Vec::new();
    let mut i: usize = 0;
    while i < v.len()
        invariant
            i <= v@.len(),
            strings_view(r@) == strings_view(v@.subrange(0, i as int)),
        decreases v.len() - i,
    {
        r.push(v[i].clone());
        assert(strings_view(v@.subrange(0, i + 1)) =~= strings_view(v@.subrange(0, i as int)).push(
            v@[i as int]@,
        ));
        assert(strings_view(r@) =~= strings_view(v@.subrange(0, i as int)).push(v@[i as int]@));
        i = i + 1;
    }
    assert(v@.subrange(0, v@.len() as int) =~= v@);
    r
}

/// The plan of one service's container in a namespace.
pub fn plan_container(namespace: &str, spec: &ServiceSpec) -> (r: ContainerPlan)
    ensures
        is_container_plan(r, namespace@, *spec),
{
    let mut env: Vec<String> = Vec::new();
    let mut i: usize = 0;
    while i < spec.env.len()
        invariant
            i <= spec.env@.len(),
            env@.len() == i,
            forall|j: int|
                0 <= j < i ==> #[trigger] env@[j]@ == spec.env@[j].0@ + "="@ + spec.env@[j].1@,
        decreases spec.env.len() - i,
    {
        env.push(concat3(spec.env[i].0.as_str(), "=", spec.env[i].1.as_str()));
        i = i + 1;
    }
    let mut exposed_ports: Vec<String> = Vec::new();
    let mut i: usize = 0;
    while i < spec.ports.len()
        invariant
            i <= spec.ports@.len(),
            exposed_ports@.len() == i,
            forall|j: int| 0 <= j < i ==> #[trigger] exposed_ports@[j]@ == tcp_port(spec.ports@[j]),
        decreases spec.ports.len() - i,
    {
        exposed_ports.push(tcp_port_string(spec.ports[i]));
        i = i + 1;
    }
    let mut port_bindings: Vec<(String, String)> = Vec::new();
    let mut i: usize = 0;
    while i < spec.port_mappings.len()
        invariant
            i <= spec.port_mappings@.len(),
            port_bindings@.len() == i,
            forall|j: int|
                0 <= j < i ==> (#[trigger] port_bindings@[j]).0@ == tcp_port(
                    spec.port_mappings@[j].0,
                ) && port_bindings@[j].1@ == decimal(spec.port_mappings@[j].1 as nat),
        decreases spec.port_mappings.len() - i,
    {
        let (internal, external) = spec.port_mappings[i];
        port_bindings.push((tcp_port_string(internal), decimal_string(external as u64)));
        i = i + 1;
    }
    let binds = if spec.volumes.len() == 0 {
        None
    } else {
        Some(copy_strings(&spec.volumes))
    };
    let command = match &spec.command {
        Some(c) => Some(copy_strings(c)),
        None => None,
    };
    let cpu_quota = match spec.cpu_limit {
        Some(m) => Some(m as i64 * 100),
        None => None,
    };
    let cpu_period = match spec.cpu_limit {
        Some(_) => Some(100000i64),
        None => None,
    };
    let cpu_shares = match spec.cpu_reservation {
        Some(m) => Some(m as i64 * 1024 / 1000),
        None => None,
    };
    ContainerPlan {
        container_name: container_name(namespace, spec.name.as_str()),
        service_name: spec.name.clone(),
        image: spec.image.clone(),
        env,
        labels: container_labels(namespace, spec.name.as_str()),
        exposed_ports,
        port_bindings,
        binds,
        network: network_name(namespace),
        alias: spec.name.clone(),
        command,
        cpu_quota,
        cpu_period,
        cpu_shares,
        memory: spec.memory_limit,
        memory_reservation: spec.memory_reservation,
    }
}

/// The plans of all services of a namespace, in the order given.
pub fn plan_containers(namespace: &str, services: &Vec<ServiceSpec>) -> (r: Vec<ContainerPlan>)
    ensures
        r@.len() == services@.len(),
        forall|i: int|
            0 <= i < services@.len() ==> is_container_plan(
                #[trigger] r@[i],
                namespace@,
                services@[i],
            ),
{
    let mut r: Vec<ContainerPlan> = Vec::new();
    let mut i: usize = 0;
    while i < services.len()
        invariant
            i <= services@.len(),
            r@.len() == i,
            forall|j: int| 0 <= j < i ==> is_container_plan(#[trigger] r@[j], namespace@, services@[j]),
        decreases services.len() - i,
    {
        r.push(plan_container(namespace, &services[i]));
        i = i + 1;
    }
    r
}

/// The handle of a service whose container the engine created under `container_id`.
pub fn handle_for(spec: &ServiceSpec, container_id: String) -> (r: ResourceHandle)
    ensures
        r.service_name@ == spec.name@,
        r.container_id@ == container_id@,
        r.image@ == spec.image@,
        r.port_mappings@ == spec.port_mappings@,
{
    ResourceHandle {
        service_name: spec.name.clone(),
        container_id,
        image: spec.image.clone(),
        port_mappings: copy_ports(&spec.port_mappings),
    }
}

/// A copy of a list of port pairs.
pub fn copy_ports(v: &Vec<(u16, u16)>) -> (r: Vec<(u16, u16)>)
    ensures
        r@ == v@,
{
    let mut r: Vec<(u16, u16)> = Vec::new();
    let mut i: usize = 0;
    while i < v.len()
        invariant
            i <= v@.len(),
            r@ == v@.subrange(0, i as int),
        decreases v.len() - i,
    {
        r.push(v[i]);
        assert(r@ =~= v@.subrange(0, i + 1));
        i = i + 1;
    }
    assert(r@ =~= v@);
    r
}

/// The message of a lookup that matched no container.
pub open spec fn not_found_message(namespace: Seq<char>, service: Seq<char>) -> Seq<char> {
    "Service '"@ + service + "' not found in namespace '"@ + namespace + "'"@
}

/// Resolves a service to its container, given the identifiers of the
/// containers that carry both its namespace label and its service label, in
/// the engine's order: the first one wins; none is an error.
pub fn pick_container(namespace: &str, service: &str, ids: &Vec<Option<String>>) -> (r: Result<
    String,
    AetherError,
>)
    ensures
        ids@.len() > 0 && ids@[0] is Some ==> (r matches Ok(id) && id@ == ids@[0]->0@),
        !(ids@.len() > 0 && ids@[0] is Some) ==> (r matches Err(AetherError::Backend(m)) && m@
            == not_found_message(namespace@, service@)),
{
    if ids.len() > 0 {
        match &ids[0] {
            Some(id) => {
                return Ok(id.clone());
            },
            None => {},
        }
    }
    let head = concat3("Service '", service, "' not found in namespace '");
    Err(AetherError::Backend(concat3(head.as_str(), namespace, "'")))
}

/// The identifiers present in a listing, in order.
pub open spec fn present_ids(ids: Seq<Option<String>>) -> Seq<Seq<char>>
    decreases ids.len(),
{
    if ids.len() == 0 {
        Seq::empty()
    } else {
        present_ids(ids.drop_last()) + match ids.last() {
            Some(id) => seq![id@],
            None => Seq::empty(),
        }
    }
}

/// The containers to remove when a namespace is torn down: every listed
/// container that has an identifier, in order.
pub fn removal_targets(ids: &Vec<Option<String>>) -> (r: Vec<String>)
    ensures
        strings_view(r@) == present_ids(ids@),
{
    let mut r: Vec<String> = Vec::new();
    let mut i: usize = 0;
    while i < ids.len()
        invariant
            i <= ids@.len(),
            strings_view(r@) == present_ids(ids@.subrange(0, i as int)),
        decreases ids.len() - i,
    {
        assert(ids@.subrange(0, i + 1).drop_last() =~= ids@.subrange(0, i as int));
        match &ids[i] {
            Some(id) => {
                r.push(id.clone());
            },
            None => {},
        }
        assert(strings_view(r@) =~= present_ids(ids@.subrange(0, i + 1)));
        i = i + 1;
    }
    assert(ids@.subrange(0, ids@.len() as int) =~= ids@);
    r
}

pub(crate) fn find_label(labels: &Vec<(String, String)>, key: &String) -> (r: Option<String>)
    ensures
        match (r, label_of(pairs_view(labels@), key@)) {
            (Some(a), Some(b)) => a@ == b,
            (None, None) => true,
            _ => false,
        },
{
    let mut i: usize = 0;
    assert(labels@.subrange(0, labels@.len() as int) =~= labels@);
    while i < labels.len()
        invariant
            i <= labels@.len(),
            label_of(pairs_view(labels@), key@) == label_of(
                pairs_view(labels@.subrange(i as int, labels@.len() as int)),
                key@,
            ),
        decreases labels.len() - i,
    {
        assert(pairs_view(labels@.subrange(i as int, labels@.len() as int)).drop_first() =~= pairs_view(
            labels@.subrange(i + 1, labels@.len() as int),
        ));
        if labels[i].0 == *key {
            return Some(labels[i].1.clone());
        }
        i = i + 1;
    }
    None
}

/// The observed service name: its service label, else `unknown`.
pub open spec fn status_service(labels: Seq<(String, String)>) -> Seq<char> {
    match label_of(pairs_view(labels), "aether.service"@) {
        Some(v) => v,
        None => "unknown"@,
    }
}

/// The published ports of a container, private to public, in order.
pub open spec fn published(ports: Seq<(u16, Option<u16>)>) -> Seq<(u16, u16)>
    decreases ports.len(),
{
    if ports.len() == 0 {
        Seq::empty()
    } else {
        published(ports.drop_last()) + match ports.last().1 {
            Some(p) => seq![(ports.last().0, p)],
            None => Seq::empty(),
        }
    }
}

/// `st` is the status reported for the listed container `c`.
pub open spec fn is_status_of(st: ResourceStatus, c: ContainerSummary) -> bool {
    &&& c.id matches Some(id) && st.container_id@ == id@
    &&& c.labels matches Some(labels) && st.service_name@ == status_service(labels@)
    &&& st.status@ == match c.state {
        Some(s) => s@,
        None => "unknown"@,
    }
    &&& st.port_mappings@ == published(c.ports@)
}

/// The listed containers that have both an identifier and labels, in order.
pub open spec fn reportable(cs: Seq<ContainerSummary>) -> Seq<ContainerSummary>
    decreases cs.len(),
{
    if cs.len() == 0 {
        Seq::empty()
    } else {
        reportable(cs.drop_last()) + if cs.last().id is Some && cs.last().labels is Some {
            seq![cs.last()]
        } else {
            Seq::empty()
        }
    }
}

fn published_ports(ports: &Vec<(u16, Option<u16>)>) -> (r: Vec<(u16, u16)>)
    ensures
        r@ == published(ports@),
{
    let mut r: Vec<(u16, u16)> = Vec::new();
    let mut i: usize = 0;
    while i < ports.len()
        invariant
            i <= ports@.len(),
            r@ == published(ports@.subrange(0, i as int)),
        decreases ports.len() - i,
    {
        assert(ports@.subrange(0, i + 1).drop_last() =~= ports@.subrange(0, i as int));
        let (private, public) = ports[i];
        match public {
            Some(p) => {
                r.push((private, p));
            },
            None => {},
        }
        assert(r@ =~= published(ports@.subrange(0, i + 1)));
        i = i + 1;
    }
    assert(ports@.subrange(0, ports@.len() as int) =~= ports@);
    r
}

/// The status of every listed container that has an identifier and labels,
/// in order; a missing service label or state reads `unknown`.
pub fn statuses(containers: &Vec<ContainerSummary>) -> (r: Vec<ResourceStatus>)
    ensures
        r@.len() == reportable(containers@).len(),
        forall|i: int|
            0 <= i < r@.len() ==> is_status_of(#[trigger] r@[i], reportable(containers@)[i]),
{
    let mut r: Vec<ResourceStatus> = Vec::new();
    let key = String::from_str("aether.service");
    let mut i: usize = 0;
    while i < containers.len()
        invariant
            i <= containers@.len(),
            key@ == "aether.service"@,
            r@.len() == reportable(containers@.subrange(0, i as int)).len(),
            forall|j: int|
                0 <= j < r@.len() ==> is_status_of(
                    #[trigger] r@[j],
                    reportable(containers@.subrange(0, i as int))[j],
                ),
        decreases containers.len() - i,
    {
        assert(containers@.subrange(0, i + 1).drop_last() =~= containers@.subrange(0, i as int));
        let c = &containers[i];
        match (&c.id, &c.labels) {
            (Some(id), Some(labels)) => {
                let service_name = match find_label(labels, &key) {
                    Some(v) => v,
                    None => String::from_str("unknown"),
                };
                let status = match &c.state {
                    Some(s) => s.clone(),
                    None => String::from_str("unknown"),
                };
                let st = ResourceStatus {
                    service_name,
                    container_id: id.clone(),
                    status,
                    port_mappings: published_ports(&c.ports),
                };
                assert(is_status_of(st, containers@[i as int]));
                r.push(st);
            },
            _ => {},
        }
        assert(forall|j: int|
            0 <= j < r@.len() ==> is_status_of(
                #[trigger] r@[j],
                reportable(containers@.subrange(0, i + 1))[j],
            ));
        i = i + 1;
    }
    assert(containers@.subrange(0, containers@.len() as int) =~= containers@);
    r
}

/// The `tail` option of a log request: the line count, or `all`.
pub fn tail_option(tail: Option<usize>) -> (r: String)
    ensures
        r@ == match tail {
            Some(n) => decimal(n as nat),
            None => "all"@,
        },
{
    match tail {
        Some(n) => decimal_string(n as u64),
        None => String::from_str("all"),
    }
}

/// The result of a finished command: its captured standard output and
/// standard error, and the exit code the engine reported, `-1` when it
/// reported none.
pub fn exec_result(exit_code: Option<i64>, stdout: String, stderr: String) -> (r: ContainerExecResult)
    ensures
        r.exit_code as int == match exit_code {
            Some(c) => c as int,
            None => -1,
        },
        r.stdout@ == stdout@,
        r.stderr@ == stderr@,
{
    let code = match exit_code {
        Some(c) => c,
        None => -1,
    };
    ContainerExecResult { exit_code: code, stdout, stderr }
}

/// Whether the namespace network must be created: the engine listed no
/// network under its name.
pub fn network_missing(listed: &Vec<String>) -> (r: bool)
    ensures
        r == (listed@.len() == 0),
{
    listed.len() == 0
}

proof fn lemma_present_ids(ids: Seq<Option<String>>, i: int)
    requires
        0 <= i < ids.len(),
        ids[i] is Some,
    ensures
        present_ids(ids).contains(ids[i]->0@),
    decreases ids.len(),
{
    if i == ids.len() - 1 {
        let p = present_ids(ids.drop_last());
        assert((p + seq![ids[i]->0@])[p.len() as int] == ids[i]->0@);
    } else {
        lemma_present_ids(ids.drop_last(), i);
        let p = present_ids(ids.drop_last());
        let j = choose|j: int| 0 <= j < p.len() && p[j] == ids[i]->0@;
        let tail = match ids.last() {
            Some(id) => seq![id@],
            None => Seq::<Seq<char>>::empty(),
        };
        assert((p + tail)[j] == ids[i]->0@);
    }
}

proof fn lemma_reportable_empty(cs: Seq<ContainerSummary>)
    requires
        forall|i: int| 0 <= i < cs.len() ==> (#[trigger] cs[i]).id is None,
    ensures
        reportable(cs).len() == 0,
    decreases cs.len(),
{
    if cs.len() > 0 {
        lemma_reportable_empty(cs.drop_last());
        assert(cs.last().id is None);
    }
}

/// Tearing a namespace down removes every listed container that has an
/// identifier, not a subset of them; and once the namespace lists no
/// container with an identifier, its status lists no resource.
pub proof fn law_teardown_complete(ids: Seq<Option<String>>, after: Seq<ContainerSummary>)
    ensures
        forall|i: int|
            0 <= i < ids.len() && (#[trigger] ids[i]) is Some ==> present_ids(ids).contains(
                ids[i]->0@,
            ),
        (forall|i: int| 0 <= i < after.len() ==> (#[trigger] after[i]).id is None) ==> reportable(
            after,
        ).len() == 0,
{
    assert forall|i: int| 0 <= i < ids.len() && (#[trigger] ids[i]) is Some implies present_ids(
        ids,
    ).contains(ids[i]->0@) by {
        lemma_present_ids(ids, i);
    }
    if forall|i: int| 0 <= i < after.len() ==> (#[trigger] after[i]).id is None {
        lemma_reportable_empty(after);
    }
}

} // verus!
