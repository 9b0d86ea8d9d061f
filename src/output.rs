//! Reports of the command-line operations, and the reconciliation of
//! labelled containers against the registry.

use vstd::prelude::*;
use crate::backend::{copy_ports, find_label, label_of, pairs_view, ContainerExecResult, ContainerSummary, ResourceHandle, ResourceStatus};
use crate::state::WorkspaceState;
use crate::error::AetherError;
use crate::text::{concat, signed_decimal, signed_decimal_string};

verus! {

/// The outcome of a workspace operation.
#[derive(Debug, Clone)]
pub struct AjjOutput {
    pub status: String,
    pub operation: String,
    pub workspace: Option<WorkspaceInfo>,
    pub errors: Vec<ErrorInfo>,
}

/// A workspace as reported.
#[derive(Debug, Clone)]
pub struct WorkspaceInfo {
    pub name: String,
    pub root: String,
    pub backend: String,
    pub namespace: String,
    pub resources: Vec<ResourceDetail>,
}

/// A resource as reported.
#[derive(Debug, Clone)]
pub struct ResourceDetail {
    pub service_name: String,
    pub container_id: String,
    pub image: String,
    pub port_mappings: Vec<(u16, u16)>,
}

/// The status report of the current workspace.
#[derive(Debug, Clone)]
pub struct StatusOutput {
    pub status: String,
    pub workspace: Option<String>,
    pub namespace: Option<String>,
    pub backend: Option<String>,
    pub resources: Vec<ContainerStatus>,
    pub jj_status: Option<String>,
}

/// One container in a status report.
#[derive(Debug, Clone)]
pub struct ContainerStatus {
    pub service_name: String,
    pub container_id: String,
    pub status: String,
    pub port_mappings: Vec<(u16, u16)>,
}

/// The report of a reconciliation pass.
#[derive(Debug, Clone)]
pub struct CleanupOutput {
    pub status: String,
    pub orphaned_count: usize,
    pub removed: Vec<String>,
}

/// A failure as reported: a stable code and a message.
#[derive(Debug, Clone)]
pub struct ErrorInfo {
    pub code: String,
    pub message: String,
}

/// The logs of one service.
#[derive(Debug, Clone)]
pub struct LogsOutput {
    pub status: String,
    pub service: String,
    pub logs: String,
}

/// The outcome of a restart, stop or start.
#[derive(Debug, Clone)]
pub struct ServiceActionOutput {
    pub status: String,
    pub service: String,
    pub message: Option<String>,
}

/// The outcome of a command run in a service container.
#[derive(Debug, Clone)]
pub struct ContainerRunOutput {
    pub status: String,
    pub service: String,
    pub exit_code: i64,
    pub stdout: String,
    pub stderr: String,
}

/// A labelled container whose namespace no registered workspace claims.
#[derive(Debug, Clone)]
pub struct Orphan {
    pub id: String,
    pub namespace: String,
    pub service: String,
}

/// The code a failure is reported under.
pub open spec fn error_code(err: AetherError) -> Seq<char> {
    match err {
        AetherError::Jj { exit_code, .. } => "JJ_FAILED_"@ + signed_decimal(exit_code as int),
        AetherError::Config(_) => "CONFIG_ERROR"@,
        AetherError::Backend(_) => "BACKEND_ERROR"@,
        AetherError::PortAllocation(_) => "PORT_ALLOCATION_ERROR"@,
        AetherError::ContextInjection(_) => "CONTEXT_INJECTION_ERROR"@,
        AetherError::State(_) => "STATE_ERROR"@,
        _ => "UNKNOWN_ERROR"@,
    }
}

/// The message a failure is reported with: the carried text, or for the
/// wrapped underlying failures their whole description.
pub open spec fn error_message(err: AetherError) -> Seq<char> {
    match err {
        AetherError::Jj { message, .. } => message@,
        AetherError::Config(m) => m@,
        AetherError::Backend(m) => m@,
        AetherError::PortAllocation(m) => m@,
        AetherError::ContextInjection(m) => m@,
        AetherError::State(m) => m@,
        _ => err.spec_message(),
    }
}

impl ErrorInfo {
    /// The report of a failure.
    pub fn from(err: AetherError) -> (r: ErrorInfo)
        ensures
            r.code@ == error_code(err),
            r.message@ == error_message(err),
    {
        let message = err.to_string();
        match err {
            AetherError::Jj { message, exit_code } => {
                let code = signed_decimal_string(exit_code as i64);
                ErrorInfo { code: concat("JJ_FAILED_", code.as_str()), message }
            },
            AetherError::Config(m) => ErrorInfo { code: String::from_str("CONFIG_ERROR"), message: m },
            AetherError::Backend(m) => ErrorInfo {
                code: String::from_str("BACKEND_ERROR"),
                message: m,
            },
            AetherError::PortAllocation(m) => ErrorInfo {
                code: String::from_str("PORT_ALLOCATION_ERROR"),
                message: m,
            },
            AetherError::ContextInjection(m) => ErrorInfo {
                code: String::from_str("CONTEXT_INJECTION_ERROR"),
                message: m,
            },
            AetherError::State(m) => ErrorInfo { code: String::from_str("STATE_ERROR"), message: m },
            _ => ErrorInfo { code: String::from_str("UNKNOWN_ERROR"), message },
        }
    }
}

/// `ns` is one of the registered namespaces.
pub open spec fn registered(namespaces: Seq<String>, ns: Seq<char>) -> bool {
    exists|i: int| 0 <= i < namespaces.len() && #[trigger] namespaces[i]@ == ns
}

/// The orphans among the listed containers, in order, each as
/// (identifier, namespace, service), a missing identifier or service label
/// reading as empty.
pub open spec fn orphans_of(namespaces: Seq<String>, cs: Seq<ContainerSummary>) -> Seq<
    (Seq<char>, Seq<char>, Seq<char>),
>
    decreases cs.len(),
{
    if cs.len() == 0 {
        Seq::empty()
    } else {
        let c = cs.last();
        orphans_of(namespaces, cs.drop_last()) + match c.labels {
            Some(labels) => match label_of(pairs_view(labels@), "aether.namespace"@) {
                Some(ns) => if !registered(namespaces, ns) {
                    seq![
                        (
                            match c.id {
                                Some(id) => id@,
                                None => Seq::empty(),
                            },
                            ns,
                            match label_of(pairs_view(labels@), "aether.service"@) {
                                Some(s) => s,
                                None => Seq::empty(),
                            },
                        ),
                    ]
                } else {
                    Seq::empty()
                },
                None => Seq::empty(),
            },
            None => Seq::empty(),
        }
    }
}

fn is_registered(namespaces: &Vec<String>, ns: &String) -> (r: bool)
    ensures
        r == registered(namespaces@, ns@),
{
    let mut i: usize = 0;
    while i < namespaces.len()
        invariant
            i <= namespaces@.len(),
            forall|j: int| 0 <= j < i ==> #[trigger] namespaces@[j]@ != ns@,
        decreases namespaces.len() - i,
    {
        if namespaces[i] == *ns {
            return true;
        }
        i = i + 1;
    }
    false
}

/// The labelled containers whose namespace label names no registered
/// namespace, in the order listed.
pub fn find_orphans(namespaces: &Vec<String>, containers: &Vec<ContainerSummary>) -> (r: Vec<Orphan>)
    ensures
        r@.map_values(|o: Orphan| (o.id@, o.namespace@, o.service@)) == orphans_of(
            namespaces@,
            containers@,
        ),
{
    let mut r: Vec<Orphan> = Vec::new();
    let ns_key = String::from_str("aether.namespace");
    let service_key = String::from_str("aether.service");
    let mut i: usize = 0;
    while i < containers.len()
        invariant
            ns_key@ == "aether.namespace"@,
            service_key@ == "aether.service"@,
            i <= containers@.len(),
            r@.map_values(|o: Orphan| (o.id@, o.namespace@, o.service@)) == orphans_of(
                namespaces@,
                containers@.subrange(0, i as int),
            ),
        decreases containers.len() - i,
    {
        assert(containers@.subrange(0, i + 1).drop_last() =~= containers@.subrange(0, i as int));
        let ghost before = r@;
        let c = &containers[i];
        match &c.labels {
            Some(labels) => match find_label(labels, &ns_key) {
                Some(ns) => {
                    if !is_registered(namespaces, &ns) {
                        let id = match &c.id {
                            Some(id) => id.clone(),
                            None => String::new(),
                        };
                        let service = match find_label(labels, &service_key) {
                            Some(s) => s,
                            None => String::new(),
                        };
                        r.push(Orphan { id, namespace: ns, service });
                    }
                },
                None => {},
            },
            None => {},
        }
        assert(r@.map_values(|o: Orphan| (o.id@, o.namespace@, o.service@)) =~= orphans_of(
            namespaces@,
            containers@.subrange(0, i + 1),
        ));
        i = i + 1;
    }
    assert(containers@.subrange(0, containers@.len() as int) =~= containers@);
    r
}

/// The first twelve characters of an identifier, or all of a shorter one.
pub fn short_id(id: &str) -> (r: String)
    ensures
        r@ == id@.subrange(0, if id@.len() < 12 { id@.len() as int } else { 12 }),
{
    let n = id.unicode_len();
    let end: usize = if n < 12 {
        n
    } else {
        12
    };
    id.substring_char(0, end).to_owned()
}

/// The report of a reconciliation pass over `orphaned` orphans: `clean`
/// when there are none, else `cleaned` when they were removed (`removed`
/// lists their short identifiers) and `dry_run` when they were only listed.
pub fn cleanup_report(orphaned: usize, force: bool, removed: Vec<String>) -> (r: CleanupOutput)
    ensures
        r.orphaned_count == orphaned,
        r.status@ == (if orphaned == 0 {
            "clean"@
        } else if force {
            "cleaned"@
        } else {
            "dry_run"@
        }),
        (orphaned > 0 && force) ==> r.removed@ == removed@,
        !(orphaned > 0 && force) ==> r.removed@.len() == 0,
{
    if orphaned == 0 {
        CleanupOutput { status: String::from_str("clean"), orphaned_count: 0, removed: Vec::new() }
    } else if force {
        CleanupOutput { status: String::from_str("cleaned"), orphaned_count: orphaned, removed }
    } else {
        CleanupOutput {
            status: String::from_str("dry_run"),
            orphaned_count: orphaned,
            removed: Vec::new(),
        }
    }
}

/// The report of a command run in a service container: `ok` when it exited
/// with code 0, `error` otherwise, with its output.
pub fn run_report(service: &str, result: &ContainerExecResult) -> (r: ContainerRunOutput)
    ensures
        r.status@ == (if result.exit_code == 0 { "ok"@ } else { "error"@ }),
        r.service@ == service@,
        r.exit_code == result.exit_code,
        r.stdout@ == result.stdout@,
        r.stderr@ == result.stderr@,
{
    ContainerRunOutput {
        status: String::from_str(if result.exit_code == 0 { "ok" } else { "error" }),
        service: String::from_str(service),
        exit_code: result.exit_code,
        stdout: result.stdout.clone(),
        stderr: result.stderr.clone(),
    }
}

/// The report of a created workspace: `ready`, with its resources in order.
pub fn workspace_add_report(
    name: &str,
    root: &str,
    backend: &str,
    namespace: &str,
    handles: &Vec<ResourceHandle>,
) -> (r: AjjOutput)
    ensures
        r.status@ == "ready"@,
        r.operation@ == "workspace_add"@,
        r.errors@.len() == 0,
        r.workspace matches Some(w) && {
            &&& w.name@ == name@
            &&& w.root@ == root@
            &&& w.backend@ == backend@
            &&& w.namespace@ == namespace@
            &&& w.resources@.len() == handles@.len()
            &&& forall|i: int|
                0 <= i < handles@.len() ==> {
                    let d = #[trigger] w.resources@[i];
                    &&& d.service_name@ == handles@[i].service_name@
                    &&& d.container_id@ == handles@[i].container_id@
                    &&& d.image@ == handles@[i].image@
                    &&& d.port_mappings@ == handles@[i].port_mappings@
                }
        },
{
    let mut resources: Vec<ResourceDetail> = Vec::new();
    let mut i: usize = 0;
    while i < handles.len()
        invariant
            i <= handles@.len(),
            resources@.len() == i,
            forall|k: int|
                0 <= k < i ==> {
                    let d = #[trigger] resources@[k];
                    &&& d.service_name@ == handles@[k].service_name@
                    &&& d.container_id@ == handles@[k].container_id@
                    &&& d.image@ == handles@[k].image@
                    &&& d.port_mappings@ == handles@[k].port_mappings@
                },
        decreases handles.len() - i,
    {
        let h = &handles[i];
        resources.push(
            ResourceDetail {
                service_name: h.service_name.clone(),
                container_id: h.container_id.clone(),
                image: h.image.clone(),
                port_mappings: copy_ports(&h.port_mappings),
            },
        );
        i = i + 1;
    }
    AjjOutput {
        status: String::from_str("ready"),
        operation: String::from_str("workspace_add"),
        workspace: Some(
            WorkspaceInfo {
                name: String::from_str(name),
                root: String::from_str(root),
                backend: String::from_str(backend),
                namespace: String::from_str(namespace),
                resources,
            },
        ),
        errors: Vec::new(),
    }
}

/// The report of a forgotten workspace.
pub fn workspace_forget_report() -> (r: AjjOutput)
    ensures
        r.status@ == "removed"@,
        r.operation@ == "workspace_forget"@,
        r.workspace is None,
        r.errors@.len() == 0,
{
    AjjOutput {
        status: String::from_str("removed"),
        operation: String::from_str("workspace_forget"),
        workspace: None,
        errors: Vec::new(),
    }
}

/// The status report: `ok`, with the current workspace, its namespace,
/// backend and resources when it is registered, and the version-control
/// status text when there is one.
pub fn status_report(
    current: Option<(String, WorkspaceState)>,
    resources: &Vec<ResourceStatus>,
    jj_status: Option<String>,
) -> (r: StatusOutput)
    ensures
        r.status@ == "ok"@,
        r.jj_status == jj_status,
        match current {
            Some((name, ws)) => {
                &&& r.workspace matches Some(w) && w@ == name@
                &&& r.namespace matches Some(n) && n@ == ws.namespace@
                &&& r.backend matches Some(b) && b@ == ws.backend_type@
                &&& r.resources@.len() == resources@.len()
                &&& forall|i: int|
                    0 <= i < resources@.len() ==> {
                        let c = #[trigger] r.resources@[i];
                        &&& c.service_name@ == resources@[i].service_name@
                        &&& c.container_id@ == resources@[i].container_id@
                        &&& c.status@ == resources@[i].status@
                        &&& c.port_mappings@ == resources@[i].port_mappings@
                    }
            },
            None => r.workspace is None && r.namespace is None && r.backend is None
                && r.resources@.len() == 0,
        },
{
    match current {
        Some((name, ws)) => {
            let mut list: Vec<ContainerStatus> = Vec::new();
            let mut i: usize = 0;
            while i < resources.len()
                invariant
                    i <= resources@.len(),
                    list@.len() == i,
                    forall|k: int|
                        0 <= k < i ==> {
                            let c = #[trigger] list@[k];
                            &&& c.service_name@ == resources@[k].service_name@
                            &&& c.container_id@ == resources@[k].container_id@
                            &&& c.status@ == resources@[k].status@
                            &&& c.port_mappings@ == resources@[k].port_mappings@
                        },
                decreases resources.len() - i,
            {
                let st = &resources[i];
                list.push(
                    ContainerStatus {
                        service_name: st.service_name.clone(),
                        container_id: st.container_id.clone(),
                        status: st.status.clone(),
                        port_mappings: copy_ports(&st.port_mappings),
                    },
                );
                i = i + 1;
            }
            StatusOutput {
                status: String::from_str("ok"),
                workspace: Some(name),
                namespace: Some(ws.namespace),
                backend: Some(ws.backend_type),
                resources: list,
                jj_status,
            }
        },
        None => StatusOutput {
            status: String::from_str("ok"),
            workspace: None,
            namespace: None,
            backend: None,
            resources: Vec::new(),
            jj_status,
        },
    }
}

} // verus!
