//! The workspace registry: the durable mapping from workspace name to the
//! resources provisioned for it.
//!
//! The registry document is modelled as a map from name to workspace; the
//! file it lives in, its lock and its encoding are handled by the caller,
//! which hands the loaded document (or its absence) to the operations here
//! and stores the document they return.

use vstd::prelude::*;
use crate::backend::{copy_ports, ResourceHandle};
use crate::text::concat;

verus! {

/// One persisted resource of a workspace.
#[derive(Debug, Clone)]
pub struct ResourceInfo {
    pub service_name: String,
    pub container_id: String,
    pub image: String,
    pub port_mappings: Vec<(u16, u16)>,
}

/// One registered workspace.
#[derive(Debug, Clone)]
pub struct WorkspaceState {
    pub name: String,
    pub path: String,
    pub namespace: String,
    pub backend_type: String,
    pub created_at: String,
    pub resources: Vec<ResourceInfo>,
}

/// The registry document: a schema version and the registered workspaces,
/// at most one per name.
#[derive(Debug, Clone)]
pub struct WorkspaceRegistry {
    pub version: String,
    pub workspaces: Vec<WorkspaceState>,
}

pub ghost struct ResourceInfoView {
    pub service_name: Seq<char>,
    pub container_id: Seq<char>,
    pub image: Seq<char>,
    pub port_mappings: Seq<(u16, u16)>,
}

pub ghost struct WorkspaceStateView {
    pub name: Seq<char>,
    pub path: Seq<char>,
    pub namespace: Seq<char>,
    pub backend_type: Seq<char>,
    pub created_at: Seq<char>,
    pub resources: Seq<ResourceInfoView>,
}

impl View for ResourceInfo {
    type V = ResourceInfoView;

    open spec fn view(&self) -> ResourceInfoView {
        ResourceInfoView {
            service_name: self.service_name@,
            container_id: self.container_id@,
            image: self.image@,
            port_mappings: self.port_mappings@,
        }
    }
}

impl View for WorkspaceState {
    type V = WorkspaceStateView;

    open spec fn view(&self) -> WorkspaceStateView {
        WorkspaceStateView {
            name: self.name@,
            path: self.path@,
            namespace: self.namespace@,
            backend_type: self.backend_type@,
            created_at: self.created_at@,
            resources: self.resources@.map_values(|r: ResourceInfo| r@),
        }
    }
}

/// The registry as a map from workspace name to workspace.
pub type RegistryMap = Map<Seq<char>, WorkspaceStateView>;

/// Some workspace of `s` has the name `k`.
pub open spec fn has_name(s: Seq<WorkspaceState>, k: Seq<char>) -> bool {
    exists|i: int| 0 <= i < s.len() && #[trigger] s[i].name@ == k
}

/// No two workspaces of `s` share a name.
pub open spec fn unique_names(s: Seq<WorkspaceState>) -> bool {
    forall|i: int, j: int|
        0 <= i < s.len() && 0 <= j < s.len() && #[trigger] s[i].name@ == #[trigger] s[j].name@
            ==> i == j
}

/// The map that a list of workspaces with distinct names stands for.
pub open spec fn registry_map(s: Seq<WorkspaceState>) -> RegistryMap {
    Map::new(
        |k: Seq<char>| has_name(s, k),
        |k: Seq<char>| s[choose|i: int| 0 <= i < s.len() && #[trigger] s[i].name@ == k]@,
    )
}

/// The registry after registering `w`: an entry under its name, replacing any earlier one.
pub open spec fn spec_register(m: RegistryMap, w: WorkspaceStateView) -> RegistryMap {
    m.insert(w.name, w)
}

/// The registry after unregistering `name`: the entry gone, if there was one.
pub open spec fn spec_unregister(m: RegistryMap, name: Seq<char>) -> RegistryMap {
    m.remove(name)
}

/// What a lookup of `name` finds.
pub open spec fn spec_get(m: RegistryMap, name: Seq<char>) -> Option<WorkspaceStateView> {
    if m.contains_key(name) {
        Some(m[name])
    } else {
        None
    }
}

/// The schema version of a fresh document.
pub open spec fn fresh_version() -> Seq<char> {
    "1.0"@
}

proof fn lemma_entry(s: Seq<WorkspaceState>, i: int)
    requires
        unique_names(s),
        0 <= i < s.len(),
    ensures
        registry_map(s).contains_key(s[i].name@),
        registry_map(s)[s[i].name@] == s[i]@,
{
    let k = s[i].name@;
    assert(has_name(s, k));
    let j = choose|j: int| 0 <= j < s.len() && #[trigger] s[j].name@ == k;
    assert(s[j].name@ == s[i].name@);
}

proof fn lemma_replace(s: Seq<WorkspaceState>, j: int, w: WorkspaceState)
    requires
        unique_names(s),
        0 <= j < s.len(),
        s[j].name@ == w.name@,
    ensures
        unique_names(s.update(j, w)),
        registry_map(s.update(j, w)) == registry_map(s).insert(w.name@, w@),
{
    let t = s.update(j, w);
    assert forall|a: int, b: int|
        0 <= a < t.len() && 0 <= b < t.len() && #[trigger] t[a].name@ == #[trigger] t[b].name@
            implies a == b by {
        assert(t[a].name@ == s[a].name@);
        assert(t[b].name@ == s[b].name@);
    }
    let m1 = registry_map(t);
    let m2 = registry_map(s).insert(w.name@, w@);
    assert forall|k: Seq<char>| m1.contains_key(k) <==> m2.contains_key(k) by {
        if has_name(t, k) {
            let i = choose|i: int| 0 <= i < t.len() && #[trigger] t[i].name@ == k;
            assert(s[i].name@ == k);
        }
        if has_name(s, k) {
            let i = choose|i: int| 0 <= i < s.len() && #[trigger] s[i].name@ == k;
            assert(t[i].name@ == k);
        }
        if k == w.name@ {
            assert(t[j].name@ == k);
        }
    }
    assert forall|k: Seq<char>| #[trigger] m1.contains_key(k) implies m1[k] == m2[k] by {
        let i = choose|i: int| 0 <= i < t.len() && #[trigger] t[i].name@ == k;
        lemma_entry(t, i);
        if i != j {
            lemma_entry(s, i);
        }
    }
    assert(m1 =~= m2);
}

proof fn lemma_remove(s: Seq<WorkspaceState>, j: int)
    requires
        unique_names(s),
        0 <= j < s.len(),
    ensures
        unique_names(s.remove(j)),
        registry_map(s.remove(j)) == registry_map(s).remove(s[j].name@),
{
    let t = s.remove(j);
    let name = s[j].name@;
    assert forall|a: int, b: int|
        0 <= a < t.len() && 0 <= b < t.len() && #[trigger] t[a].name@ == #[trigger] t[b].name@
            implies a == b by {
        let a2 = if a < j { a } else { a + 1 };
        let b2 = if b < j { b } else { b + 1 };
        assert(t[a] == s[a2]);
        assert(t[b] == s[b2]);
    }
    let m1 = registry_map(t);
    let m2 = registry_map(s).remove(name);
    assert forall|k: Seq<char>| m1.contains_key(k) <==> m2.contains_key(k) by {
        if has_name(t, k) {
            let i = choose|i: int| 0 <= i < t.len() && #[trigger] t[i].name@ == k;
            let i2 = if i < j { i } else { i + 1 };
            assert(t[i] == s[i2]);
            assert(s[i2].name@ == k);
        }
        if has_name(s, k) && k != name {
            let i = choose|i: int| 0 <= i < s.len() && #[trigger] s[i].name@ == k;
            assert(i != j);
            let i2 = if i < j { i } else { i - 1 };
            assert(t[i2] == s[i]);
            assert(t[i2].name@ == k);
        }
    }
    assert forall|k: Seq<char>| #[trigger] m1.contains_key(k) implies m1[k] == m2[k] by {
        let i = choose|i: int| 0 <= i < t.len() && #[trigger] t[i].name@ == k;
        lemma_entry(t, i);
        let i2 = if i < j { i } else { i + 1 };
        assert(t[i] == s[i2]);
        lemma_entry(s, i2);
    }
    assert(m1 =~= m2);
}

proof fn lemma_append(s: Seq<WorkspaceState>, w: WorkspaceState)
    requires
        unique_names(s),
        !has_name(s, w.name@),
    ensures
        unique_names(s.push(w)),
        registry_map(s.push(w)) == registry_map(s).insert(w.name@, w@),
{
    let t = s.push(w);
    assert forall|a: int, b: int|
        0 <= a < t.len() && 0 <= b < t.len() && #[trigger] t[a].name@ == #[trigger] t[b].name@
            implies a == b by {
        if a < s.len() && b == s.len() {
            assert(s[a].name@ == w.name@);
        }
        if b < s.len() && a == s.len() {
            assert(s[b].name@ == w.name@);
        }
    }
    let m1 = registry_map(t);
    let m2 = registry_map(s).insert(w.name@, w@);
    assert forall|k: Seq<char>| m1.contains_key(k) <==> m2.contains_key(k) by {
        if has_name(t, k) {
            let i = choose|i: int| 0 <= i < t.len() && #[trigger] t[i].name@ == k;
            if i < s.len() {
                assert(s[i].name@ == k);
            }
        }
        if has_name(s, k) {
            let i = choose|i: int| 0 <= i < s.len() && #[trigger] s[i].name@ == k;
            assert(t[i].name@ == k);
        }
        if k == w.name@ {
            assert(t[s.len() as int].name@ == k);
        }
    }
    assert forall|k: Seq<char>| #[trigger] m1.contains_key(k) implies m1[k] == m2[k] by {
        let i = choose|i: int| 0 <= i < t.len() && #[trigger] t[i].name@ == k;
        lemma_entry(t, i);
        if i < s.len() {
            assert(t[i] == s[i]);
            lemma_entry(s, i);
        }
    }
    assert(m1 =~= m2);
}

impl ResourceInfo {
    /// A copy equal to this one.
    pub fn copy(&self) -> (r: Self)
        ensures
            r@ == self@,
    {
        ResourceInfo {
            service_name: self.service_name.clone(),
            container_id: self.container_id.clone(),
            image: self.image.clone(),
            port_mappings: copy_ports(&self.port_mappings),
        }
    }

    /// The persisted form of a provisioned resource.
    pub fn from_handle(h: &ResourceHandle) -> (r: Self)
        ensures
            r.service_name@ == h.service_name@,
            r.container_id@ == h.container_id@,
            r.image@ == h.image@,
            r.port_mappings@ == h.port_mappings@,
    {
        ResourceInfo {
            service_name: h.service_name.clone(),
            container_id: h.container_id.clone(),
            image: h.image.clone(),
            port_mappings: copy_ports(&h.port_mappings),
        }
    }
}

impl WorkspaceState {
    /// A copy equal to this one.
    pub fn copy(&self) -> (r: Self)
        ensures
            r@ == self@,
    {
        let mut resources: Vec<ResourceInfo> = Vec::new();
        let mut i: usize = 0;
        while i < self.resources.len()
            invariant
                i <= self.resources@.len(),
                resources@.len() == i,
                forall|j: int| 0 <= j < i ==> #[trigger] resources@[j]@ == self.resources@[j]@,
            decreases self.resources.len() - i,
        {
            resources.push(self.resources[i].copy());
            i = i + 1;
        }
        let r = WorkspaceState {
            name: self.name.clone(),
            path: self.path.clone(),
            namespace: self.namespace.clone(),
            backend_type: self.backend_type.clone(),
            created_at: self.created_at.clone(),
            resources,
        };
        assert(r@.resources =~= self@.resources);
        r
    }
}

impl WorkspaceRegistry {
    /// No two workspaces share a name.
    pub open spec fn wf(&self) -> bool {
        unique_names(self.workspaces@)
    }

    /// The registry as a map from workspace name to workspace.
    pub open spec fn entries(&self) -> RegistryMap {
        registry_map(self.workspaces@)
    }

    /// A fresh document: version `1.0`, no workspaces.
    pub fn new() -> (r: Self)
        ensures
            r.wf(),
            r.version@ == fresh_version(),
            r.entries() == Map::<Seq<char>, WorkspaceStateView>::empty(),
    {
        let r = WorkspaceRegistry { version: String::from_str("1.0"), workspaces: Vec::new() };
        assert(r.entries() =~= Map::<Seq<char>, WorkspaceStateView>::empty());
        r
    }

    fn position(&self, name: &String) -> (r: Option<usize>)
        requires
            self.wf(),
        ensures
            match r {
                Some(j) => j < self.workspaces@.len() && self.workspaces@[j as int].name@ == name@,
                None => !has_name(self.workspaces@, name@),
            },
    {
        let mut i: usize = 0;
        while i < self.workspaces.len()
            invariant
                i <= self.workspaces@.len(),
                forall|j: int| 0 <= j < i ==> #[trigger] self.workspaces@[j].name@ != name@,
            decreases self.workspaces.len() - i,
        {
            if self.workspaces[i].name == *name {
                return Some(i);
            }
            i = i + 1;
        }
        None
    }

    /// Registers a workspace under its name, replacing any earlier entry.
    pub fn register(&mut self, workspace: WorkspaceState)
        requires
            old(self).wf(),
        ensures
            final(self).wf(),
            final(self).version@ == old(self).version@,
            final(self).entries() == spec_register(old(self).entries(), workspace@),
    {
        match self.position(&workspace.name) {
            Some(j) => {
                proof {
                    lemma_replace(self.workspaces@, j as int, workspace);
                }
                self.workspaces[j] = workspace;
            },
            None => {
                proof {
                    lemma_append(self.workspaces@, workspace);
                }
                self.workspaces.push(workspace);
            },
        }
    }

    /// Removes the workspace of that name; an absent name changes nothing.
    pub fn unregister(&mut self, name: &str)
        requires
            old(self).wf(),
        ensures
            final(self).wf(),
            final(self).version@ == old(self).version@,
            final(self).entries() == spec_unregister(old(self).entries(), name@),
    {
        let key = String::from_str(name);
        match self.position(&key) {
            Some(j) => {
                proof {
                    lemma_remove(self.workspaces@, j as int);
                }
                self.workspaces.remove(j);
            },
            None => {
                assert(self.entries() =~= spec_unregister(self.entries(), name@));
            },
        }
    }

    /// The workspace of that name, if registered.
    pub fn get(&self, name: &str) -> (r: Option<WorkspaceState>)
        requires
            self.wf(),
        ensures
            match r {
                Some(w) => spec_get(self.entries(), name@) == Some(w@),
                None => spec_get(self.entries(), name@) is None,
            },
    {
        let key = String::from_str(name);
        match self.position(&key) {
            Some(j) => {
                proof {
                    lemma_entry(self.workspaces@, j as int);
                }
                Some(self.workspaces[j].copy())
            },
            None => None,
        }
    }

    /// Every registered workspace, once each.
    pub fn list(&self) -> (r: Vec<WorkspaceState>)
        requires
            self.wf(),
        ensures
            unique_names(r@),
            registry_map(r@) == self.entries(),
    {
        let mut r: Vec<WorkspaceState> = Vec::new();
        let mut i: usize = 0;
        while i < self.workspaces.len()
            invariant
                i <= self.workspaces@.len(),
                self.wf(),
                r@.len() == i,
                forall|j: int| 0 <= j < i ==> (#[trigger] r@[j])@ == self.workspaces@[j]@,
            decreases self.workspaces.len() - i,
        {
            r.push(self.workspaces[i].copy());
            i = i + 1;
        }
        assert forall|a: int, b: int|
            0 <= a < r@.len() && 0 <= b < r@.len() && #[trigger] r@[a].name@ == #[trigger] r@[b].name@
                implies a == b by {
            assert(self.workspaces@[a].name@ == self.workspaces@[b].name@);
        }
        assert forall|k: Seq<char>| has_name(r@, k) <==> has_name(self.workspaces@, k) by {
            if has_name(r@, k) {
                let i = choose|i: int| 0 <= i < r@.len() && #[trigger] r@[i].name@ == k;
                assert(self.workspaces@[i].name@ == k);
            }
            if has_name(self.workspaces@, k) {
                let i = choose|i: int| 0 <= i < self.workspaces@.len() && #[trigger] self.workspaces@[i].name@ == k;
                assert(r@[i].name@ == k);
            }
        }
        assert forall|k: Seq<char>| #[trigger] registry_map(r@).contains_key(k) implies registry_map(
            r@,
        )[k] == self.entries()[k] by {
            let i = choose|i: int| 0 <= i < r@.len() && #[trigger] r@[i].name@ == k;
            lemma_entry(r@, i);
            lemma_entry(self.workspaces@, i);
        }
        assert(registry_map(r@) =~= self.entries());
        r
    }
}

/// `rel` appended to the directory `root` with one separator between them.
pub open spec fn join_path(root: Seq<char>, rel: Seq<char>) -> Seq<char> {
    if root.len() == 0 {
        rel
    } else if root.last() == '/' {
        root + rel
    } else {
        root + "/"@ + rel
    }
}

/// `rel` appended to the directory `root`.
pub fn join(root: &str, rel: &str) -> (r: String)
    ensures
        r@ == join_path(root@, rel@),
{
    let n = root.unicode_len();
    if n == 0 {
        String::from_str(rel)
    } else if root.get_char(n - 1) == '/' {
        concat(root, rel)
    } else {
        let mut s = concat(root, "/");
        s.append(rel);
        proof {
            reveal_strlit("/");
        }
        s
    }
}

/// The entries of a loaded document; an absent document has none.
pub open spec fn loaded_entries(loaded: Option<WorkspaceRegistry>) -> RegistryMap {
    match loaded {
        Some(reg) => reg.entries(),
        None => Map::empty(),
    }
}

/// The version of a loaded document; an absent one is fresh.
pub open spec fn loaded_version(loaded: Option<WorkspaceRegistry>) -> Seq<char> {
    match loaded {
        Some(reg) => reg.version@,
        None => fresh_version(),
    }
}

/// A loaded document is usable when it holds at most one workspace per name.
pub open spec fn loaded_wf(loaded: Option<WorkspaceRegistry>) -> bool {
    match loaded {
        Some(reg) => reg.wf(),
        None => true,
    }
}

/// Where a repository's registry lives, and the operations on it.
///
/// Each operation takes the document as loaded under the registry lock
/// (`None` when the state file does not exist yet); the mutating ones return
/// the document to store before the lock is released.
pub struct StateManager {
    state_file: String,
    lock_file: String,
    tmp_file: String,
}

impl WorkspaceRegistry {
    /// Whether no two workspaces share a name.
    pub fn has_unique_names(&self) -> (r: bool)
        ensures
            r == self.wf(),
    {
        let n = self.workspaces.len();
        let mut i: usize = 0;
        while i < n
            invariant
                n == self.workspaces@.len(),
                i <= n,
                forall|a: int, b: int|
                    0 <= a < i && 0 <= b < n && #[trigger] self.workspaces@[a].name@
                        == #[trigger] self.workspaces@[b].name@ ==> a == b,
            decreases n - i,
        {
            let mut j: usize = 0;
            while j < n
                invariant
                    n == self.workspaces@.len(),
                    i < n,
                    j <= n,
                    forall|b: int|
                        0 <= b < j && #[trigger] self.workspaces@[b].name@ == self.workspaces@[i as int].name@
                            ==> i == b,
                decreases n - j,
            {
                if j != i && self.workspaces[j].name == self.workspaces[i].name {
                    return false;
                }
                j = j + 1;
            }
            i = i + 1;
        }
        true
    }
}

impl StateManager {
    pub closed spec fn spec_state_file(&self) -> Seq<char> {
        self.state_file@
    }

    pub closed spec fn spec_lock_file(&self) -> Seq<char> {
        self.lock_file@
    }

    pub closed spec fn spec_tmp_file(&self) -> Seq<char> {
        self.tmp_file@
    }

    /// The registry of the repository rooted at `repo_root`: the document in
    /// `.aether/state.json`, the lock in `.aether/state.lock`, and the
    /// temporary file a new document is written to before it replaces the old.
    pub fn new(repo_root: &str) -> (r: Self)
        ensures
            r.spec_state_file() == join_path(repo_root@, ".aether/state.json"@),
            r.spec_lock_file() == join_path(repo_root@, ".aether/state.lock"@),
            r.spec_tmp_file() == join_path(repo_root@, ".aether/state.tmp"@),
    {
        StateManager {
            state_file: join(repo_root, ".aether/state.json"),
            lock_file: join(repo_root, ".aether/state.lock"),
            tmp_file: join(repo_root, ".aether/state.tmp"),
        }
    }

    /// The registry document's path.
    pub fn state_file(&self) -> (r: &String)
        ensures
            r@ == self.spec_state_file(),
    {
        &self.state_file
    }

    /// The lock file's path.
    pub fn lock_file(&self) -> (r: &String)
        ensures
            r@ == self.spec_lock_file(),
    {
        &self.lock_file
    }

    /// The path a new document is written to before it is renamed into place.
    pub fn tmp_file(&self) -> (r: &String)
        ensures
            r@ == self.spec_tmp_file(),
    {
        &self.tmp_file
    }

    /// The document to work on: the loaded one, or a fresh one when there was none.
    pub fn load_registry(&self, loaded: Option<WorkspaceRegistry>) -> (r: WorkspaceRegistry)
        requires
            loaded_wf(loaded),
        ensures
            r.wf(),
            r.version@ == loaded_version(loaded),
            r.entries() == loaded_entries(loaded),
    {
        match loaded {
            Some(reg) => reg,
            None => WorkspaceRegistry::new(),
        }
    }

    /// The document to store after registering `workspace`.
    pub fn register_workspace(&self, loaded: Option<WorkspaceRegistry>, workspace: WorkspaceState) -> (r:
        WorkspaceRegistry)
        requires
            loaded_wf(loaded),
        ensures
            r.wf(),
            r.version@ == loaded_version(loaded),
            r.entries() == spec_register(loaded_entries(loaded), workspace@),
    {
        let mut reg = self.load_registry(loaded);
        reg.register(workspace);
        reg
    }

    /// The document to store after unregistering `name`.
    pub fn unregister_workspace(&self, loaded: Option<WorkspaceRegistry>, name: &str) -> (r:
        WorkspaceRegistry)
        requires
            loaded_wf(loaded),
        ensures
            r.wf(),
            r.version@ == loaded_version(loaded),
            r.entries() == spec_unregister(loaded_entries(loaded), name@),
    {
        let mut reg = self.load_registry(loaded);
        reg.unregister(name);
        reg
    }

    /// The workspace registered under `name`, if any.
    pub fn get_workspace(&self, loaded: &Option<WorkspaceRegistry>, name: &str) -> (r: Option<
        WorkspaceState,
    >)
        requires
            loaded_wf(*loaded),
        ensures
            match r {
                Some(w) => spec_get(loaded_entries(*loaded), name@) == Some(w@),
                None => spec_get(loaded_entries(*loaded), name@) is None,
            },
    {
        match loaded {
            Some(reg) => reg.get(name),
            None => None,
        }
    }

    /// Every registered workspace, once each, in no particular order.
    pub fn list_workspaces(&self, loaded: &Option<WorkspaceRegistry>) -> (r: Vec<WorkspaceState>)
        requires
            loaded_wf(*loaded),
        ensures
            unique_names(r@),
            registry_map(r@) == loaded_entries(*loaded),
    {
        match loaded {
            Some(reg) => reg.list(),
            None => {
                let r: Vec<WorkspaceState> = Vec::new();
                assert(registry_map(r@) =~= Map::<Seq<char>, WorkspaceStateView>::empty());
                r
            },
        }
    }
}

/// Registering a workspace and then looking up its name finds exactly that
/// workspace; unregistering the name afterwards and looking again finds nothing.
pub proof fn law_register_round_trip(m: RegistryMap, w: WorkspaceStateView)
    ensures
        spec_get(spec_register(m, w), w.name) == Some(w),
        spec_get(spec_unregister(spec_register(m, w), w.name), w.name) is None,
{
}

/// After two registrations under distinct names, both workspaces are listed,
/// each as registered, and nothing else changed.
pub proof fn law_distinct_registrations_kept(m: RegistryMap, a: WorkspaceStateView, b: WorkspaceStateView)
    requires
        a.name != b.name,
    ensures
        spec_get(spec_register(spec_register(m, a), b), a.name) == Some(a),
        spec_get(spec_register(spec_register(m, a), b), b.name) == Some(b),
        forall|k: Seq<char>|
            k != a.name && k != b.name ==> #[trigger] spec_get(spec_register(spec_register(m, a), b), k)
                == spec_get(m, k),
{
}

/// Once a workspace is unregistered, the registry no longer holds its name,
/// whatever it held before.
pub proof fn law_unregistered_absent(m: RegistryMap, name: Seq<char>)
    ensures
        spec_get(spec_unregister(m, name), name) is None,
        !spec_unregister(m, name).contains_key(name),
{
}

} // verus!
