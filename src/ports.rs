//! The port allocator: hands out host ports for published container ports
//! and remembers, for its own lifetime, which ones it has handed out.
//!
//! Finding a free port is the operating system's part: the caller supplies a
//! probe that binds a listener to an unspecified loopback port and reports
//! the port the system picked.

use vstd::prelude::*;
use crate::error::AetherError;
use crate::text::{concat3, decimal, decimal_string};

verus! {

/// Hands out ports and remembers them until they are released.
pub struct PortAllocator {
    reserved: Vec<u16>,
}

/// No port occurs twice in `s`.
pub open spec fn distinct(s: Seq<u16>) -> bool {
    forall|i: int, j: int| 0 <= i < s.len() && 0 <= j < s.len() && s[i] == s[j] ==> i == j
}

/// The reservations left after releasing `ports`.
pub open spec fn spec_release(reserved: Set<u16>, ports: Seq<u16>) -> Set<u16> {
    reserved.difference(ports.to_set())
}

/// Port `s[i]` can be taken once `s[0..i]` have been: it is positive, not
/// reserved, and not among them.
pub open spec fn acceptable(reserved: Set<u16>, s: Seq<u16>, i: int) -> bool {
    s[i] > 0 && !reserved.contains(s[i]) && !s.subrange(0, i).contains(s[i])
}

/// The first position at or after `i` whose port cannot be taken, or the length.
pub open spec fn first_refused(reserved: Set<u16>, s: Seq<u16>, i: int) -> int
    decreases s.len() - i,
{
    if i >= s.len() {
        s.len() as int
    } else if !acceptable(reserved, s, i) {
        i
    } else {
        first_refused(reserved, s, i + 1)
    }
}

/// The message of a refused port.
pub open spec fn refused_message(port: u16) -> Seq<char> {
    "port "@ + decimal(port as nat) + " is not free"@
}

proof fn lemma_first_refused_bound(reserved: Set<u16>, s: Seq<u16>, i: int)
    requires
        0 <= i <= s.len(),
    ensures
        i <= first_refused(reserved, s, i) <= s.len(),
    decreases s.len() - i,
{
    if i < s.len() && acceptable(reserved, s, i) {
        lemma_first_refused_bound(reserved, s, i + 1);
    }
}

proof fn lemma_remove_distinct(s: Seq<u16>, j: int)
    requires
        distinct(s),
        0 <= j < s.len(),
    ensures
        distinct(s.remove(j)),
        s.remove(j).to_set() == s.to_set().remove(s[j]),
{
    let t = s.remove(j);
    assert forall|a: int, b: int| 0 <= a < t.len() && 0 <= b < t.len() && t[a] == t[b] implies a
        == b by {
        let a2 = if a < j { a } else { a + 1 };
        let b2 = if b < j { b } else { b + 1 };
        assert(t[a] == s[a2] && t[b] == s[b2]);
    }
    assert forall|p: u16| t.to_set().contains(p) <==> s.to_set().remove(s[j]).contains(p) by {
        if t.contains(p) {
            let a = choose|a: int| 0 <= a < t.len() && t[a] == p;
            let a2 = if a < j { a } else { a + 1 };
            assert(t[a] == s[a2]);
            assert(s.contains(p));
        }
        if s.contains(p) && p != s[j] {
            let a = choose|a: int| 0 <= a < s.len() && s[a] == p;
            let a2 = if a < j { a } else { a - 1 };
            assert(t[a2] == s[a]);
            assert(t.contains(p));
        }
    }
    assert(t.to_set() =~= s.to_set().remove(s[j]));
}

impl PortAllocator {
    /// The ports currently reserved.
    pub closed spec fn reserved_ports(&self) -> Set<u16> {
        self.reserved@.to_set()
    }

    /// The internal list holds each reserved port once.
    pub closed spec fn wf(&self) -> bool {
        distinct(self.reserved@)
    }

    /// An allocator with nothing reserved.
    pub fn new() -> (r: Self)
        ensures
            r.wf(),
            r.reserved_ports() == Set::<u16>::empty(),
    {
        let r = PortAllocator { reserved: Vec::new() };
        assert(r.reserved_ports() =~= Set::<u16>::empty());
        r
    }

    fn position(&self, port: u16) -> (r: Option<usize>)
        ensures
            match r {
                Some(j) => j < self.reserved@.len() && self.reserved@[j as int] == port,
                None => !self.reserved_ports().contains(port),
            },
    {
        let mut i: usize = 0;
        while i < self.reserved.len()
            invariant
                i <= self.reserved@.len(),
                forall|j: int| 0 <= j < i ==> self.reserved@[j] != port,
            decreases self.reserved.len() - i,
        {
            if self.reserved[i] == port {
                return Some(i);
            }
            i = i + 1;
        }
        None
    }

    /// Whether `port` is reserved.
    pub fn is_reserved(&self, port: u16) -> (r: bool)
        ensures
            r == self.reserved_ports().contains(port),
    {
        match self.position(port) {
            Some(j) => {
                assert(self.reserved@.contains(port));
                true
            },
            None => false,
        }
    }

    /// How many ports are reserved.
    pub fn reserved_count(&self) -> (r: usize)
        requires
            self.wf(),
        ensures
            r == self.reserved_ports().len(),
    {
        proof {
            self.reserved@.unique_seq_to_set();
        }
        self.reserved.len()
    }

    /// Takes a port the system reported free: a positive port that is not
    /// reserved yet becomes reserved; any other is refused and nothing changes.
    pub fn accept(&mut self, port: u16) -> (r: Result<(), AetherError>)
        requires
            old(self).wf(),
        ensures
            final(self).wf(),
            (port > 0 && !old(self).reserved_ports().contains(port)) ==> (r is Ok
                && final(self).reserved_ports() == old(self).reserved_ports().insert(port)),
            !(port > 0 && !old(self).reserved_ports().contains(port)) ==> (r matches Err(
                AetherError::PortAllocation(m),
            ) && m@ == refused_message(port) && final(self).reserved_ports()
                == old(self).reserved_ports()),
    {
        if port == 0 || self.is_reserved(port) {
            let d = decimal_string(port as u64);
            return Err(AetherError::PortAllocation(concat3("port ", d.as_str(), " is not free")));
        }
        proof {
            assert(!self.reserved@.contains(port));
        }
        self.reserved.push(port);
        proof {
            let s = old(self).reserved@;
            assert(distinct(self.reserved@)) by {
                assert forall|i: int, j: int|
                    0 <= i < self.reserved@.len() && 0 <= j < self.reserved@.len()
                        && self.reserved@[i] == self.reserved@[j] implies i == j by {
                    if i < s.len() && j == s.len() {
                        assert(s.contains(port));
                    }
                    if j < s.len() && i == s.len() {
                        assert(s.contains(port));
                    }
                }
            }
            s.lemma_push_to_set_commute(port);
            assert(self.reserved@ == s.push(port));
        }
        Ok(())
    }

    /// Reserves the reported ports in order, stopping at the first one that
    /// is zero, already reserved, or reported earlier in the list: all of
    /// them when none is refused, else a failure naming the refused port,
    /// with the ports before it reserved.
    pub fn take_ports(&mut self, reported: &Vec<u16>) -> (r: Result<Vec<u16>, AetherError>)
        requires
            old(self).wf(),
        ensures
            final(self).wf(),
            ({
                let k = first_refused(old(self).reserved_ports(), reported@, 0);
                &&& k == reported@.len() ==> (r matches Ok(ports) && ports@ == reported@
                    && final(self).reserved_ports() == old(self).reserved_ports().union(
                    reported@.to_set(),
                ))
                &&& k < reported@.len() ==> (r matches Err(AetherError::PortAllocation(m)) && m@
                    == refused_message(reported@[k]) && final(self).reserved_ports()
                    == old(self).reserved_ports().union(reported@.subrange(0, k).to_set()))
            }),
            r matches Ok(ports) ==> {
                &&& distinct(ports@)
                &&& forall|i: int| 0 <= i < ports@.len() ==> #[trigger] ports@[i] > 0
                &&& forall|i: int|
                    0 <= i < ports@.len() ==> !old(self).reserved_ports().contains(
                        #[trigger] ports@[i],
                    )
            },
    {
        let ghost start = self.reserved_ports();
        let mut ports: Vec<u16> = Vec::new();
        let mut i: usize = 0;
        assert(reported@.subrange(0, 0).to_set() =~= Set::<u16>::empty());
        assert(start.union(Set::<u16>::empty()) =~= start);
        while i < reported.len()
            invariant
                self.wf(),
                start == old(self).reserved_ports(),
                i <= reported@.len(),
                ports@ == reported@.subrange(0, i as int),
                self.reserved_ports() == start.union(reported@.subrange(0, i as int).to_set()),
                first_refused(start, reported@, 0) == first_refused(start, reported@, i as int),
                distinct(ports@),
                forall|k: int| 0 <= k < i ==> #[trigger] ports@[k] > 0,
                forall|k: int| 0 <= k < i ==> !start.contains(#[trigger] ports@[k]),
            decreases reported.len() - i,
        {
            let p = reported[i];
            let ghost pre = reported@.subrange(0, i as int);
            proof {
                assert(pre.to_set().contains(p) <==> pre.contains(p));
            }
            match self.accept(p) {
                Ok(()) => {},
                Err(e) => {
                    assert(!acceptable(start, reported@, i as int));
                    return Err(e);
                },
            }
            proof {
                assert(acceptable(start, reported@, i as int));
                let s = ports@;
                assert(!s.contains(p));
                assert(distinct(s.push(p))) by {
                    assert forall|a: int, b: int|
                        0 <= a < s.len() + 1 && 0 <= b < s.len() + 1 && s.push(p)[a] == s.push(
                            p,
                        )[b] implies a == b by {
                        if a < s.len() && b == s.len() {
                            assert(s.contains(p));
                        }
                        if b < s.len() && a == s.len() {
                            assert(s.contains(p));
                        }
                    }
                }
                assert(reported@.subrange(0, i + 1) =~= pre.push(p));
                pre.lemma_push_to_set_commute(p);
                assert(start.union(pre.push(p).to_set()) =~= start.union(pre.to_set()).insert(p));
            }
            ports.push(p);
            i = i + 1;
        }
        assert(reported@.subrange(0, reported@.len() as int) =~= reported@);
        Ok(ports)
    }

    /// Reserves `count` ports, each obtained from `probe`, which reports a
    /// port the system found free. A failing probe ends the allocation with
    /// its error and nothing reserved; otherwise the reported ports are
    /// taken as `take_ports` takes them. With `count` zero no probe runs and
    /// the allocation succeeds with no ports.
    pub fn allocate<F: Fn() -> Result<u16, AetherError>>(&mut self, count: usize, probe: F) -> (r:
        Result<Vec<u16>, AetherError>)
        requires
            old(self).wf(),
            probe.requires(()),
        ensures
            final(self).wf(),
            old(self).reserved_ports().subset_of(final(self).reserved_ports()),
            count == 0 ==> (r matches Ok(v) && v@.len() == 0 && final(self).reserved_ports()
                == old(self).reserved_ports()),
            r matches Ok(ports) ==> {
                &&& ports@.len() == count
                &&& distinct(ports@)
                &&& forall|i: int| 0 <= i < ports@.len() ==> #[trigger] ports@[i] > 0
                &&& forall|i: int|
                    0 <= i < ports@.len() ==> !old(self).reserved_ports().contains(
                        #[trigger] ports@[i],
                    )
                &&& final(self).reserved_ports() == old(self).reserved_ports().union(
                    ports@.to_set(),
                )
            },
    {
        let mut reported: Vec<u16> = Vec::new();
        let mut i: usize = 0;
        while i < count
            invariant
                probe.requires(()),
                self.wf(),
                self.reserved_ports() == old(self).reserved_ports(),
                i <= count,
                reported@.len() == i,
            decreases count - i,
        {
            match probe() {
                Ok(p) => reported.push(p),
                Err(e) => {
                    return Err(e);
                },
            }
            i = i + 1;
        }
        if count == 0 {
            assert(first_refused(self.reserved_ports(), reported@, 0) == 0);
            assert(reported@.to_set() =~= Set::<u16>::empty());
            assert(self.reserved_ports().union(Set::<u16>::empty()) =~= self.reserved_ports());
        }
        proof {
            lemma_first_refused_bound(self.reserved_ports(), reported@, 0);
        }
        let r = self.take_ports(&reported);
        r
    }

    /// Forgets the given ports; a port that is not reserved is left alone.
    pub fn release(&mut self, ports: &[u16])
        requires
            old(self).wf(),
        ensures
            final(self).wf(),
            final(self).reserved_ports() == spec_release(old(self).reserved_ports(), ports@),
    {
        let mut i: usize = 0;
        while i < ports.len()
            invariant
                self.wf(),
                i <= ports@.len(),
                self.reserved_ports() == spec_release(
                    old(self).reserved_ports(),
                    ports@.subrange(0, i as int),
                ),
            decreases ports.len() - i,
        {
            let port = ports[i];
            let ghost before = self.reserved_ports();
            match self.position(port) {
                Some(j) => {
                    proof {
                        lemma_remove_distinct(self.reserved@, j as int);
                    }
                    self.reserved.remove(j);
                },
                None => {},
            }
            proof {
                assert(self.reserved_ports() == before.remove(port));
                let pre = ports@.subrange(0, i as int);
                assert(ports@.subrange(0, i + 1) =~= pre.push(port));
                pre.lemma_push_to_set_commute(port);
                assert(spec_release(old(self).reserved_ports(), pre.push(port)) =~= before.remove(
                    port,
                ));
            }
            i = i + 1;
        }
        assert(ports@.subrange(0, ports@.len() as int) =~= ports@);
    }
}

/// Releasing a port that is not reserved changes nothing; releasing every
/// port handed out by an allocation that started from no reservations
/// leaves none.
pub proof fn law_release(reserved: Set<u16>, port: u16, allocated: Seq<u16>)
    ensures
        !reserved.contains(port) ==> spec_release(reserved, seq![port]) == reserved,
        spec_release(Set::<u16>::empty().union(allocated.to_set()), allocated) == Set::<
            u16,
        >::empty(),
{
    if !reserved.contains(port) {
        assert(seq![port].to_set() =~= set![port]) by {
            assert(seq![port].contains(port)) by {
                assert(seq![port][0] == port);
            }
        }
        assert(spec_release(reserved, seq![port]) =~= reserved);
    }
    assert(spec_release(Set::<u16>::empty().union(allocated.to_set()), allocated) =~= Set::<
        u16,
    >::empty());
}

} // verus!
