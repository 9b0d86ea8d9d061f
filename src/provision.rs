//! Turning a configuration and a set of allocated ports into service
//! specifications, and the provisioned resources into a registry entry.

use vstd::prelude::*;
use crate::backend::{copy_ports, copy_strings, strings_view, pairs_view, ResourceHandle, ServiceSpec};
use crate::config::{parse_port, parse_port_str, AetherConfig, ServiceConfig};
use crate::error::AetherError;
use crate::state::{ResourceInfo, WorkspaceState};
use crate::text::concat;

verus! {

/// The index of the last `'/'` before position `i`, or `-1`.
pub open spec fn last_slash(p: Seq<char>, i: int) -> int
    decreases i,
{
    if i <= 0 {
        -1
    } else if p[i - 1] == '/' {
        i - 1
    } else {
        last_slash(p, i - 1)
    }
}

/// The final component of a `/`-separated path, as `Path::file_name` reads
/// it: trailing separators and `.` components are skipped; a path that ends
/// in `..` or has no named component has none.
pub open spec fn file_name(p: Seq<char>) -> Option<Seq<char>>
    decreases p.len(),
{
    if p.len() == 0 {
        None
    } else if p.last() == '/' {
        file_name(p.drop_last())
    } else {
        let k = last_slash(p, p.len() as int);
        let seg = p.subrange(k + 1, p.len() as int);
        if seg == seq!['.'] {
            file_name(p.drop_last())
        } else if seg == seq!['.', '.'] {
            None
        } else {
            Some(seg)
        }
    }
}

/// The workspace name of a destination path: its final component.
pub fn workspace_name(destination: &str) -> (r: Result<String, AetherError>)
    ensures
        match file_name(destination@) {
            Some(n) => r matches Ok(name) && name@ == n,
            None => r matches Err(AetherError::Config(m)) && m@ == "Invalid destination"@,
        },
{
    let mut end = destination.unicode_len();
    let ghost p = destination@;
    assert(p.subrange(0, end as int) =~= p);
    loop
        invariant
            end <= p.len(),
            p == destination@,
            file_name(p) == file_name(p.subrange(0, end as int)),
        decreases end,
    {
        let ghost q = p.subrange(0, end as int);
        if end == 0 {
            return Err(AetherError::Config(String::from_str("Invalid destination")));
        }
        if destination.get_char(end - 1) == '/' {
            assert(q.drop_last() =~= p.subrange(0, end - 1));
            end = end - 1;
        } else {
            let mut k: usize = end;
            while k > 0 && destination.get_char(k - 1) != '/'
                invariant
                    k <= end <= p.len(),
                    p == destination@,
                    q == p.subrange(0, end as int),
                    last_slash(q, end as int) == last_slash(q, k as int),
                decreases k,
            {
                k = k - 1;
            }
            assert(last_slash(q, q.len() as int) == k as int - 1);
            let seg = destination.substring_char(k, end);
            assert(seg@ =~= q.subrange(k as int, q.len() as int));
            let len = end - k;
            let is_dot = len == 1 && seg.get_char(0) == '.';
            let is_dotdot = len == 2 && seg.get_char(0) == '.' && seg.get_char(1) == '.';
            if is_dot {
                assert(seg@ =~= seq!['.']);
                assert(q.drop_last() =~= p.subrange(0, k as int));
                end = k;
            } else if is_dotdot {
                assert(seg@ =~= seq!['.', '.']);
                return Err(AetherError::Config(String::from_str("Invalid destination")));
            } else {
                assert(seg@ != seq!['.']) by {
                    if seg@ == seq!['.'] {
                        assert(seg@.len() == 1 && seg@[0] == '.');
                    }
                }
                assert(seg@ != seq!['.', '.']) by {
                    if seg@ == seq!['.', '.'] {
                        assert(seg@.len() == 2 && seg@[0] == '.' && seg@[1] == '.');
                    }
                }
                return Ok(seg.to_owned());
            }
        }
    }
}

/// The number of ports the services declare, all together.
pub open spec fn port_count(s: Seq<(String, ServiceConfig)>) -> nat
    decreases s.len(),
{
    if s.len() == 0 {
        0
    } else {
        s[0].1.ports@.len() + port_count(s.drop_first())
    }
}

/// Where the allocated ports of service `i` start: the ports of the services before it.
pub open spec fn port_offset(s: Seq<(String, ServiceConfig)>, i: int) -> int {
    port_count(s) - port_count(s.subrange(i, s.len() as int))
}

/// The first port of a list that does not read as a port number.
pub open spec fn first_invalid_port(ports: Seq<String>) -> Option<Seq<char>>
    decreases ports.len(),
{
    if ports.len() == 0 {
        None
    } else if parse_port(ports[0]@) is None {
        Some(ports[0]@)
    } else {
        first_invalid_port(ports.drop_first())
    }
}

/// The first port, over the services in order, that does not read as a port number.
pub open spec fn first_invalid(s: Seq<(String, ServiceConfig)>) -> Option<Seq<char>>
    decreases s.len(),
{
    if s.len() == 0 {
        None
    } else {
        match first_invalid_port(s[0].1.ports@) {
            Some(p) => Some(p),
            None => first_invalid(s.drop_first()),
        }
    }
}

/// `spec` describes the service `svc` with its ports published on `external`, in order.
pub open spec fn is_spec_of(spec: ServiceSpec, svc: (String, ServiceConfig), external: Seq<u16>) -> bool {
    &&& spec.name@ == svc.0@
    &&& spec.image@ == svc.1.image@
    &&& spec.ports@.len() == svc.1.ports@.len()
    &&& forall|j: int|
        0 <= j < spec.ports@.len() ==> parse_port(svc.1.ports@[j]@) == Some(
            #[trigger] spec.ports@[j],
        )
    &&& spec.port_mappings@.len() == spec.ports@.len()
    &&& forall|j: int|
        0 <= j < spec.ports@.len() ==> #[trigger] spec.port_mappings@[j] == (
            spec.ports@[j],
            external[j],
        )
    &&& pairs_view(spec.env@) == pairs_view(svc.1.env@)
    &&& strings_view(spec.volumes@) == strings_view(svc.1.volumes@)
    &&& match (spec.command, svc.1.command) {
        (Some(a), Some(b)) => strings_view(a@) == strings_view(b@),
        (None, None) => true,
        _ => false,
    }
    &&& strings_view(spec.depends_on@) == strings_view(svc.1.depends_on@)
    &&& spec.cpu_limit == svc.1.cpu_limit
    &&& spec.cpu_reservation == svc.1.cpu_reservation
    &&& spec.memory_limit == svc.1.memory_limit
    &&& spec.memory_reservation == svc.1.memory_reservation
}

proof fn lemma_port_count_step(s: Seq<(String, ServiceConfig)>, i: int)
    requires
        0 <= i < s.len(),
    ensures
        port_count(s.subrange(i, s.len() as int)) == s[i].1.ports@.len() + port_count(
            s.subrange(i + 1, s.len() as int),
        ),
        first_invalid(s.subrange(i, s.len() as int)) == match first_invalid_port(s[i].1.ports@) {
            Some(p) => Some(p),
            None => first_invalid(s.subrange(i + 1, s.len() as int)),
        },
{
    assert(s.subrange(i, s.len() as int).drop_first() =~= s.subrange(i + 1, s.len() as int));
}

/// How many ports the services declare, all together.
pub fn total_ports(config: &AetherConfig) -> (r: usize)
    requires
        port_count(config.services@) <= usize::MAX,
    ensures
        r == port_count(config.services@),
{
    let s = &config.services;
    let n = s.len();
    let mut total: usize = 0;
    let mut i: usize = 0;
    assert(s@.subrange(0, n as int) =~= s@);
    while i < n
        invariant
            n == s@.len(),
            i <= n,
            port_count(s@) <= usize::MAX,
            total + port_count(s@.subrange(i as int, n as int)) == port_count(s@),
        decreases n - i,
    {
        proof {
            lemma_port_count_step(s@, i as int);
        }
        total = total + s[i].1.ports.len();
        i = i + 1;
    }
    total
}

/// How many ports the services declare, all together, when that fits a `usize`.
pub fn checked_total_ports(config: &AetherConfig) -> (r: Option<usize>)
    ensures
        port_count(config.services@) <= usize::MAX ==> r == Some(port_count(config.services@) as usize),
        port_count(config.services@) > usize::MAX ==> r is None,
{
    let s = &config.services;
    let n = s.len();
    let mut total: usize = 0;
    let mut i: usize = 0;
    assert(s@.subrange(0, n as int) =~= s@);
    while i < n
        invariant
            n == s@.len(),
            s@ == config.services@,
            i <= n,
            total + port_count(s@.subrange(i as int, n as int)) == port_count(s@),
        decreases n - i,
    {
        proof {
            lemma_port_count_step(s@, i as int);
        }
        let k = s[i].1.ports.len();
        if k > usize::MAX - total {
            return None;
        }
        total = total + k;
        i = i + 1;
    }
    Some(total)
}

fn copy_pairs(v: &Vec<(String, String)>) -> (r: Vec<(String, String)>)
    ensures
        pairs_view(r@) == pairs_view(v@),
{
    let mut r: Vec<(String, String)> = Vec::new();
    let mut i: usize = 0;
    while i < v.len()
        invariant
            i <= v@.len(),
            r@.len() == i,
            forall|j: int| 0 <= j < i ==> #[trigger] r@[j].0@ == v@[j].0@ && r@[j].1@ == v@[j].1@,
        decreases v.len() - i,
    {
        r.push((v[i].0.clone(), v[i].1.clone()));
        i = i + 1;
    }
    assert(pairs_view(r@) =~= pairs_view(v@));
    r
}

/// The specification of one service, its ports published on
/// `allocated[offset..]` in order; the first port that does not read as a
/// port number is reported.
fn service_spec(name: &String, svc: &ServiceConfig, allocated: &Vec<u16>, offset: usize) -> (r: Result<
    ServiceSpec,
    AetherError,
>)
    requires
        offset + svc.ports@.len() <= allocated@.len(),
    ensures
        match first_invalid_port(svc.ports@) {
            Some(p) => r matches Err(AetherError::Config(m)) && m@ == "Invalid port: "@ + p,
            None => r matches Ok(spec) && is_spec_of(
                spec,
                (*name, *svc),
                allocated@.subrange(offset as int, offset + svc.ports@.len()),
            ),
        },
{
    let n = svc.ports.len();
    let alen = allocated.len();
    let mut ports: Vec<u16> = Vec::new();
    let mut mappings: Vec<(u16, u16)> = Vec::new();
    let mut j: usize = 0;
    assert(svc.ports@.subrange(0, n as int) =~= svc.ports@);
    while j < n
        invariant
            n == svc.ports@.len(),
            alen == allocated@.len(),
            offset + n <= allocated@.len(),
            j <= n,
            first_invalid_port(svc.ports@) == first_invalid_port(
                svc.ports@.subrange(j as int, n as int),
            ),
            ports@.len() == j,
            mappings@.len() == j,
            forall|k: int| 0 <= k < j ==> parse_port(svc.ports@[k]@) == Some(#[trigger] ports@[k]),
            forall|k: int|
                0 <= k < j ==> #[trigger] mappings@[k] == (ports@[k], allocated@[offset + k]),
        decreases n - j,
    {
        assert(svc.ports@.subrange(j as int, n as int).drop_first() =~= svc.ports@.subrange(
            j + 1,
            n as int,
        ));
        match parse_port_str(svc.ports[j].as_str()) {
            Some(p) => {
                ports.push(p);
                mappings.push((p, allocated[offset + j]));
            },
            None => {
                return Err(AetherError::Config(concat("Invalid port: ", svc.ports[j].as_str())));
            },
        }
        j = j + 1;
    }
    let command = match &svc.command {
        Some(c) => Some(copy_strings(c)),
        None => None,
    };
    let spec = ServiceSpec {
        name: name.clone(),
        image: svc.image.clone(),
        ports,
        env: copy_pairs(&svc.env),
        volumes: copy_strings(&svc.volumes),
        command,
        port_mappings: mappings,
        depends_on: copy_strings(&svc.depends_on),
        cpu_limit: svc.cpu_limit,
        cpu_reservation: svc.cpu_reservation,
        memory_limit: svc.memory_limit,
        memory_reservation: svc.memory_reservation,
    };
    Ok(spec)
}

/// The specifications of the configured services, in order, the declared
/// ports of all services taking the allocated ports one after another.
///
/// Fails, naming it, on the first declared port that does not read as a port number.
pub fn build_service_specs(config: &AetherConfig, allocated: &Vec<u16>) -> (r: Result<
    Vec<ServiceSpec>,
    AetherError,
>)
    requires
        allocated@.len() >= port_count(config.services@),
    ensures
        first_invalid(config.services@) is Some ==> (r matches Err(AetherError::Config(m)) && m@
            == "Invalid port: "@ + first_invalid(config.services@)->0),
        first_invalid(config.services@) is None ==> (r matches Ok(specs) && specs@.len()
            == config.services@.len() && forall|i: int|
            0 <= i < config.services@.len() ==> is_spec_of(
                #[trigger] specs@[i],
                config.services@[i],
                allocated@.subrange(
                    port_offset(config.services@, i),
                    port_offset(config.services@, i) + config.services@[i].1.ports@.len(),
                ),
            )),
{
    let s = &config.services;
    let n = s.len();
    let alen = allocated.len();
    let mut specs: Vec<ServiceSpec> = Vec::new();
    let mut offset: usize = 0;
    let mut i: usize = 0;
    assert(s@.subrange(0, n as int) =~= s@);
    while i < n
        invariant
            n == s@.len(),
            i <= n,
            s@ == config.services@,
            alen == allocated@.len(),
            allocated@.len() >= port_count(s@),
            offset + port_count(s@.subrange(i as int, n as int)) == port_count(s@),
            first_invalid(s@) == first_invalid(s@.subrange(i as int, n as int)),
            specs@.len() == i,
            forall|k: int|
                0 <= k < i ==> is_spec_of(
                    #[trigger] specs@[k],
                    s@[k],
                    allocated@.subrange(
                        port_offset(s@, k),
                        port_offset(s@, k) + s@[k].1.ports@.len(),
                    ),
                ),
        decreases n - i,
    {
        proof {
            lemma_port_count_step(s@, i as int);
        }
        let spec = match service_spec(&s[i].0, &s[i].1, allocated, offset) {
            Ok(spec) => spec,
            Err(e) => {
                return Err(e);
            },
        };
        assert(port_offset(s@, i as int) == offset);
        specs.push(spec);
        offset = offset + s[i].1.ports.len();
        i = i + 1;
    }
    Ok(specs)
}

/// The registry entry of a provisioned workspace.
pub fn workspace_record(
    name: &str,
    path: &str,
    namespace: &str,
    backend_type: &str,
    created_at: &str,
    handles: &Vec<ResourceHandle>,
) -> (r: WorkspaceState)
    ensures
        r.name@ == name@,
        r.path@ == path@,
        r.namespace@ == namespace@,
        r.backend_type@ == backend_type@,
        r.created_at@ == created_at@,
        r.resources@.len() == handles@.len(),
        forall|i: int|
            0 <= i < handles@.len() ==> {
                let h = handles@[i];
                let info = #[trigger] r.resources@[i];
                &&& info.service_name@ == h.service_name@
                &&& info.container_id@ == h.container_id@
                &&& info.image@ == h.image@
                &&& info.port_mappings@ == h.port_mappings@
            },
{
    let mut resources: Vec<ResourceInfo> = Vec::new();
    let mut i: usize = 0;
    while i < handles.len()
        invariant
            i <= handles@.len(),
            resources@.len() == i,
            forall|k: int|
                0 <= k < i ==> {
                    let h = handles@[k];
                    let info = #[trigger] resources@[k];
                    &&& info.service_name@ == h.service_name@
                    &&& info.container_id@ == h.container_id@
                    &&& info.image@ == h.image@
                    &&& info.port_mappings@ == h.port_mappings@
                },
        decreases handles.len() - i,
    {
        resources.push(ResourceInfo::from_handle(&handles[i]));
        i = i + 1;
    }
    WorkspaceState {
        name: String::from_str(name),
        path: String::from_str(path),
        namespace: String::from_str(namespace),
        backend_type: String::from_str(backend_type),
        created_at: String::from_str(created_at),
        resources,
    }
}

} // verus!
