//! An in-memory container engine that follows the backend's rules: the
//! network of a namespace, one labelled container per provisioned service,
//! teardown by namespace label, and status by namespace label. It lets the
//! provisioning rules be stated and proved end to end without a daemon.

use vstd::prelude::*;
use crate::backend::{
    copy_ports, find_label, handle_for, label_of, network_name, pairs_view, plan_container,
    spec_container_labels, spec_container_name, spec_network_name, strings_view, ResourceHandle,
    ResourceStatus, ServiceSpec,
};
use crate::text::decimal_string;

verus! {

/// A container as the engine holds it.
#[derive(Debug, Clone)]
pub struct EngineContainer {
    pub id: String,
    pub name: String,
    pub image: String,
    pub labels: Vec<(String, String)>,
    pub running: bool,
    /// Internal port to published port.
    pub ports: Vec<(u16, u16)>,
}

/// The namespace a container is labelled with.
pub open spec fn workspace_label(c: EngineContainer) -> Option<Seq<char>> {
    label_of(pairs_view(c.labels@), "aether.workspace"@)
}

/// The service a container is labelled with.
pub open spec fn service_label(c: EngineContainer) -> Option<Seq<char>> {
    label_of(pairs_view(c.labels@), "aether.service"@)
}

/// The container belongs to the namespace.
pub open spec fn in_namespace(c: EngineContainer, ns: Seq<char>) -> bool {
    workspace_label(c) == Some(ns)
}

/// The containers of a namespace, in order.
pub open spec fn members(cs: Seq<EngineContainer>, ns: Seq<char>) -> Seq<EngineContainer>
    decreases cs.len(),
{
    if cs.len() == 0 {
        Seq::empty()
    } else if in_namespace(cs.last(), ns) {
        members(cs.drop_last(), ns).push(cs.last())
    } else {
        members(cs.drop_last(), ns)
    }
}

/// The containers outside a namespace, in order.
pub open spec fn others(cs: Seq<EngineContainer>, ns: Seq<char>) -> Seq<EngineContainer>
    decreases cs.len(),
{
    if cs.len() == 0 {
        Seq::empty()
    } else if in_namespace(cs.last(), ns) {
        others(cs.drop_last(), ns)
    } else {
        others(cs.drop_last(), ns).push(cs.last())
    }
}

/// `c` is the running container created for `spec` in namespace `ns`.
pub open spec fn created_for(c: EngineContainer, ns: Seq<char>, spec: ServiceSpec) -> bool {
    &&& pairs_view(c.labels@) == spec_container_labels(ns, spec.name@)
    &&& c.name@ == spec_container_name(ns, spec.name@)
    &&& c.image@ == spec.image@
    &&& c.running
    &&& c.ports@ == spec.port_mappings@
}

/// `new` holds `old` followed by one container per service, in order.
pub open spec fn provisioned(
    old: Seq<EngineContainer>,
    new: Seq<EngineContainer>,
    ns: Seq<char>,
    services: Seq<ServiceSpec>,
) -> bool {
    &&& new.len() == old.len() + services.len()
    &&& new.subrange(0, old.len() as int) == old
    &&& forall|i: int|
        0 <= i < services.len() ==> created_for(#[trigger] new[old.len() + i], ns, services[i])
}

/// `st` is the status of the engine container `c`.
pub open spec fn engine_status(st: ResourceStatus, c: EngineContainer) -> bool {
    &&& st.container_id@ == c.id@
    &&& st.service_name@ == match service_label(c) {
        Some(s) => s,
        None => "unknown"@,
    }
    &&& st.status@ == (if c.running { "running"@ } else { "exited"@ })
    &&& st.port_mappings@ == c.ports@
}

proof fn lemma_members_of_others(cs: Seq<EngineContainer>, ns: Seq<char>)
    ensures
        members(others(cs, ns), ns).len() == 0,
    decreases cs.len(),
{
    if cs.len() > 0 {
        lemma_members_of_others(cs.drop_last(), ns);
        if !in_namespace(cs.last(), ns) {
            let o = others(cs.drop_last(), ns);
            assert(o.push(cs.last()).drop_last() =~= o);
        }
    }
}

proof fn lemma_no_members(cs: Seq<EngineContainer>, ns: Seq<char>)
    requires
        forall|i: int| 0 <= i < cs.len() ==> !in_namespace(#[trigger] cs[i], ns),
    ensures
        members(cs, ns).len() == 0,
    decreases cs.len(),
{
    if cs.len() > 0 {
        assert(!in_namespace(cs[cs.len() - 1], ns));
        lemma_no_members(cs.drop_last(), ns);
    }
}

proof fn lemma_labels(ns: Seq<char>, service: Seq<char>)
    ensures
        label_of(spec_container_labels(ns, service), "aether.workspace"@) == Some(ns),
        label_of(spec_container_labels(ns, service), "aether.namespace"@) == Some(ns),
        label_of(spec_container_labels(ns, service), "aether.service"@) == Some(service),
{
    reveal_strlit("aether.managed");
    reveal_strlit("aether.workspace");
    reveal_strlit("aether.namespace");
    reveal_strlit("aether.service");
    let l = spec_container_labels(ns, service);
    let w = "aether.workspace"@;
    let n = "aether.namespace"@;
    let v = "aether.service"@;
    let m = "aether.managed"@;
    assert(m != w) by {
        assert(m.len() != w.len());
    }
    assert(m != n) by {
        assert(m.len() != n.len());
    }
    assert(m != v) by {
        assert(m[7] != v[7]);
    }
    assert(w != n) by {
        assert(w[7] != n[7]);
    }
    assert(w != v) by {
        assert(w.len() != v.len());
    }
    assert(n != v) by {
        assert(n.len() != v.len());
    }
    let l1 = l.drop_first();
    let l2 = l1.drop_first();
    let l3 = l2.drop_first();
    assert(l1 =~= seq![(w, ns), (n, ns), (v, service)]);
    assert(l2 =~= seq![(n, ns), (v, service)]);
    assert(l3 =~= seq![(v, service)]);
    assert(label_of(l1, w) == Some(ns));
    assert(label_of(l, w) == Some(ns));
    assert(label_of(l2, n) == Some(ns));
    assert(label_of(l1, n) == Some(ns));
    assert(label_of(l, n) == Some(ns));
    assert(label_of(l3, v) == Some(service));
    assert(label_of(l2, v) == Some(service));
    assert(label_of(l1, v) == Some(service));
    assert(label_of(l, v) == Some(service));
}

/// Holds containers and networks in memory.
pub struct MemoryEngine {
    containers: Vec<EngineContainer>,
    networks: Vec<String>,
    next_id: u64,
}

impl MemoryEngine {
    /// The containers, in order of creation.
    pub closed spec fn spec_containers(&self) -> Seq<EngineContainer> {
        self.containers@
    }

    /// The networks.
    pub closed spec fn spec_networks(&self) -> Seq<Seq<char>> {
        strings_view(self.networks@)
    }

    /// The number the next container identifier is made from.
    pub closed spec fn spec_next_id(&self) -> u64 {
        self.next_id
    }

    /// An engine with no containers and no networks.
    pub fn new() -> (r: Self)
        ensures
            r.spec_containers().len() == 0,
            r.spec_networks().len() == 0,
            r.spec_next_id() == 0,
    {
        MemoryEngine { containers: Vec::new(), networks: Vec::new(), next_id: 0 }
    }

    /// The containers, in order of creation.
    pub fn containers(&self) -> (r: &Vec<EngineContainer>)
        ensures
            r@ == self.spec_containers(),
    {
        &self.containers
    }

    fn has_network(&self, name: &String) -> (r: bool)
        ensures
            r == self.spec_networks().contains(name@),
    {
        let mut i: usize = 0;
        while i < self.networks.len()
            invariant
                i <= self.networks@.len(),
                forall|j: int| 0 <= j < i ==> #[trigger] self.networks@[j]@ != name@,
            decreases self.networks.len() - i,
        {
            if self.networks[i] == *name {
                assert(self.spec_networks()[i as int] == name@);
                return true;
            }
            i = i + 1;
        }
        assert forall|j: int| 0 <= j < self.spec_networks().len() implies self.spec_networks()[j]
            != name@ by {
            assert(self.spec_networks()[j] == self.networks@[j]@);
        }
        false
    }

    /// Creates the namespace network if it is missing, then one running
    /// container per service, in order, from the service's plan.
    pub fn provision(&mut self, namespace: &str, services: &Vec<ServiceSpec>) -> (r: Vec<
        ResourceHandle,
    >)
        requires
            old(self).spec_next_id() + services@.len() <= u64::MAX,
        ensures
            provisioned(old(self).spec_containers(), final(self).spec_containers(), namespace@, services@),
            final(self).spec_networks().contains(spec_network_name(namespace@)),
            r@.len() == services@.len(),
            forall|i: int|
                0 <= i < services@.len() ==> {
                    let h = #[trigger] r@[i];
                    let c = final(self).spec_containers()[old(self).spec_containers().len() + i];
                    &&& h.container_id@ == c.id@
                    &&& h.service_name@ == services@[i].name@
                    &&& h.image@ == services@[i].image@
                    &&& h.port_mappings@ == services@[i].port_mappings@
                },
    {
        let network = network_name(namespace);
        if !self.has_network(&network) {
            self.networks.push(network);
            assert(self.spec_networks().last() == spec_network_name(namespace@));
        }
        let ghost nets = self.spec_networks();
        assert(nets.contains(spec_network_name(namespace@)));
        let ghost start = old(self).containers@;
        let mut handles: Vec<ResourceHandle> = Vec::new();
        let mut i: usize = 0;
        while i < services.len()
            invariant
                i <= services@.len(),
                self.spec_networks() == nets,
                nets.contains(spec_network_name(namespace@)),
                self.next_id == old(self).next_id + i,
                old(self).next_id + services@.len() <= u64::MAX,
                self.containers@.len() == start.len() + i,
                self.containers@.subrange(0, start.len() as int) == start,
                forall|k: int|
                    0 <= k < i ==> created_for(
                        #[trigger] self.containers@[start.len() + k],
                        namespace@,
                        services@[k],
                    ),
                handles@.len() == i,
                forall|k: int|
                    0 <= k < i ==> {
                        let h = #[trigger] handles@[k];
                        let c = self.containers@[start.len() + k];
                        &&& h.container_id@ == c.id@
                        &&& h.service_name@ == services@[k].name@
                        &&& h.image@ == services@[k].image@
                        &&& h.port_mappings@ == services@[k].port_mappings@
                    },
            decreases services.len() - i,
        {
            let spec = &services[i];
            let plan = plan_container(namespace, spec);
            let id = decimal_string(self.next_id);
            let c = EngineContainer {
                id: id.clone(),
                name: plan.container_name,
                image: plan.image,
                labels: plan.labels,
                running: true,
                ports: copy_ports(&spec.port_mappings),
            };
            self.next_id = self.next_id + 1;
            let ghost before = self.containers@;
            self.containers.push(c);
            assert(self.containers@.subrange(0, start.len() as int) =~= before.subrange(
                0,
                start.len() as int,
            ));
            handles.push(handle_for(spec, id));
            i = i + 1;
        }
        handles
    }

    /// Force-removes every container labelled with the namespace, whatever
    /// its state, then the namespace network.
    pub fn deprovision(&mut self, namespace: &str)
        ensures
            final(self).spec_containers() == others(old(self).spec_containers(), namespace@),
            !final(self).spec_networks().contains(spec_network_name(namespace@)),
    {
        let ns = String::from_str(namespace);
        let key = String::from_str("aether.workspace");
        let ghost start = self.containers@;
        let mut i: usize = 0;
        let ghost mut j: int = 0;
        assert(start.subrange(0, 0) =~= Seq::<EngineContainer>::empty());
        assert(start.subrange(0, start.len() as int) =~= start);
        while i < self.containers.len()
            invariant
                ns@ == namespace@,
                key@ == "aether.workspace"@,
                0 <= j <= start.len(),
                i <= self.containers@.len(),
                self.containers@.subrange(0, i as int) == others(start.subrange(0, j), namespace@),
                self.containers@.subrange(i as int, self.containers@.len() as int) == start.subrange(
                    j,
                    start.len() as int,
                ),
            decreases self.containers@.len() - i,
        {
            let ghost cur = self.containers@;
            let inside = match find_label(&self.containers[i].labels, &key) {
                Some(v) => v == ns,
                None => false,
            };
            assert(cur.subrange(i as int, cur.len() as int).len() == start.subrange(
                j,
                start.len() as int,
            ).len());
            assert(j < start.len());
            assert(cur[i as int] == start[j]) by {
                assert(cur.subrange(i as int, cur.len() as int)[0] == cur[i as int]);
                assert(start.subrange(j, start.len() as int)[0] == start[j]);
            }
            assert(start.subrange(0, j + 1).drop_last() =~= start.subrange(0, j));
            if inside {
                self.containers.remove(i);
                assert(self.containers@.subrange(0, i as int) =~= cur.subrange(0, i as int));
                assert(self.containers@.subrange(i as int, self.containers@.len() as int)
                    =~= cur.subrange(i + 1, cur.len() as int));
                assert(cur.subrange(i + 1, cur.len() as int) =~= start.subrange(j + 1, start.len() as int)) by {
                    assert(cur.subrange(i + 1, cur.len() as int) =~= cur.subrange(i as int, cur.len() as int).drop_first());
                    assert(start.subrange(j + 1, start.len() as int) =~= start.subrange(j, start.len() as int).drop_first());
                }
            } else {
                assert(self.containers@.subrange(0, i + 1) =~= cur.subrange(0, i as int).push(cur[i as int]));
                assert(self.containers@.subrange(i + 1, self.containers@.len() as int) =~= start.subrange(j + 1, start.len() as int)) by {
                    assert(cur.subrange(i + 1, cur.len() as int) =~= cur.subrange(i as int, cur.len() as int).drop_first());
                    assert(start.subrange(j + 1, start.len() as int) =~= start.subrange(j, start.len() as int).drop_first());
                }
                i = i + 1;
            }
            proof {
                j = j + 1;
            }
        }
        assert(j == start.len()) by {
            assert(self.containers@.subrange(i as int, self.containers@.len() as int).len() == 0);
        }
        assert(self.containers@ =~= self.containers@.subrange(0, i as int));
        assert(start.subrange(0, j) =~= start);
        assert(self.containers@ == others(start, namespace@));
        let network = network_name(namespace);
        let mut k: usize = 0;
        while k < self.networks.len()
            invariant
                network@ == spec_network_name(namespace@),
                self.containers@ == others(start, namespace@),
                start == old(self).containers@,
                k <= self.networks@.len(),
                forall|m: int| 0 <= m < k ==> #[trigger] self.networks@[m]@ != network@,
            decreases self.networks@.len() - k,
        {
            if self.networks[k] == network {
                self.networks.remove(k);
            } else {
                k = k + 1;
            }
        }
        assert forall|m: int| 0 <= m < self.spec_networks().len() implies self.spec_networks()[m]
            != spec_network_name(namespace@) by {
            assert(self.spec_networks()[m] == self.networks@[m]@);
        }
    }

    /// The status of every container labelled with the namespace, in order.
    pub fn status(&self, namespace: &str) -> (r: Vec<ResourceStatus>)
        ensures
            r@.len() == members(self.spec_containers(), namespace@).len(),
            forall|i: int|
                0 <= i < r@.len() ==> engine_status(
                    #[trigger] r@[i],
                    members(self.spec_containers(), namespace@)[i],
                ),
    {
        let ns = String::from_str(namespace);
        let key = String::from_str("aether.workspace");
        let service_key = String::from_str("aether.service");
        let mut r: Vec<ResourceStatus> = Vec::new();
        let mut i: usize = 0;
        while i < self.containers.len()
            invariant
                ns@ == namespace@,
                key@ == "aether.workspace"@,
                service_key@ == "aether.service"@,
                i <= self.containers@.len(),
                r@.len() == members(self.containers@.subrange(0, i as int), namespace@).len(),
                forall|k: int|
                    0 <= k < r@.len() ==> engine_status(
                        #[trigger] r@[k],
                        members(self.containers@.subrange(0, i as int), namespace@)[k],
                    ),
            decreases self.containers.len() - i,
        {
            let c = &self.containers[i];
            assert(self.containers@.subrange(0, i + 1).drop_last() =~= self.containers@.subrange(
                0,
                i as int,
            ));
            let inside = match find_label(&c.labels, &key) {
                Some(v) => v == ns,
                None => false,
            };
            if inside {
                let service_name = match find_label(&c.labels, &service_key) {
                    Some(v) => v,
                    None => String::from_str("unknown"),
                };
                let st = ResourceStatus {
                    service_name,
                    container_id: c.id.clone(),
                    status: String::from_str(if c.running { "running" } else { "exited" }),
                    port_mappings: copy_ports(&c.ports),
                };
                r.push(st);
            }
            i = i + 1;
        }
        assert(self.containers@.subrange(0, self.containers@.len() as int) =~= self.containers@);
        r
    }
}

/// Provisioning one service into a namespace that holds no container leaves
/// exactly one container there, labelled with the namespace and the service.
pub proof fn law_single_service_provision(
    old: Seq<EngineContainer>,
    new: Seq<EngineContainer>,
    ns: Seq<char>,
    spec: ServiceSpec,
)
    requires
        forall|i: int| 0 <= i < old.len() ==> !in_namespace(#[trigger] old[i], ns),
        provisioned(old, new, ns, seq![spec]),
    ensures
        members(new, ns).len() == 1,
        members(new, ns)[0] == new.last(),
        in_namespace(new.last(), ns),
        service_label(new.last()) == Some(spec.name@),
        label_of(pairs_view(new.last().labels@), "aether.namespace"@) == Some(ns),
{
    let c = new[old.len() as int];
    assert(created_for(new[old.len() + 0int], ns, seq![spec][0]));
    lemma_labels(ns, spec.name@);
    assert(new.drop_last() =~= old) by {
        assert(new.drop_last() =~= new.subrange(0, old.len() as int));
    }
    lemma_no_members(old, ns);
    assert(members(new, ns) =~= seq![c]);
}

/// After a namespace is torn down no container is left in it, so its
/// status lists nothing.
pub proof fn law_deprovision_leaves_nothing(old: Seq<EngineContainer>, ns: Seq<char>)
    ensures
        members(others(old, ns), ns).len() == 0,
{
    lemma_members_of_others(old, ns);
}

} // verus!
