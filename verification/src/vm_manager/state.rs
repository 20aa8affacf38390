//! The shared VM registry: one record per live VM, the active configuration,
//! and the uniqueness invariants that hold among non-terminal records.

use crate::config::LambdoConfig;
use crate::vm_manager::net::IpNet;
use crate::vm_manager::vmm::VmConfiguration;
use vstd::prelude::*;

verus! {

/// Lifecycle status of a VM record.
#[derive(Debug, Clone, Copy, PartialEq, Eq, Structural)]
pub enum VMStatus {
    Pending,
    Running,
    Exited,
    Terminated,
}

/// One record of the registry: the backend configuration (which carries the
/// VM's id and tap-device name), the lifecycle status, the assigned address,
/// and the host-to-guest port mapping.
#[derive(Debug)]
pub struct VMState {
    /// The execution backend's configuration for this VM.
    pub configuration: VmConfiguration,
    /// Lifecycle status.
    pub status: VMStatus,
    /// The address assigned inside the bridge subnet, once provisioning
    /// chose one; never reassigned.
    pub ip: Option<IpNet>,
    /// Pairs of (host port, guest port); host ports are unique within the
    /// record.
    pub port_mapping: Vec<(u16, u16)>,
}

impl VMState {
    /// The record's id.
    pub open spec fn vm_id_view(self) -> Seq<char> {
        self.configuration.vm_id@
    }

    /// Whether the record still holds its resources: it has not reached a
    /// terminal status.
    pub open spec fn non_terminal(self) -> bool {
        self.status != VMStatus::Exited && self.status != VMStatus::Terminated
    }

    /// Whether the record's mapping claims the host port `p`.
    pub open spec fn claims_host_port(self, p: u16) -> bool {
        exists|k: int| 0 <= k < self.port_mapping@.len() && self.port_mapping@[k].0 == p
    }

    /// A well-formed record: host ports unique within the mapping, and the
    /// assigned address well formed.
    pub open spec fn wf(self) -> bool {
        &&& (forall|a: int, b: int|
            0 <= a < b < self.port_mapping@.len() ==> (#[trigger] self.port_mapping@[a]).0 != (
            #[trigger] self.port_mapping@[b]).0)
        &&& (self.ip matches Some(ip) ==> ip.wf())
    }

    /// A fresh record around a backend configuration: pending, no address,
    /// no ports.
    pub fn new(configuration: VmConfiguration) -> (r: Self)
        ensures
            r.configuration == configuration,
            r.status == VMStatus::Pending,
            r.ip is None,
            r.port_mapping@ =~= Seq::<(u16, u16)>::empty(),
            r.wf(),
    {
        VMState { configuration, status: VMStatus::Pending, ip: None, port_mapping: Vec::new() }
    }

    /// The record's lifecycle status.
    pub fn get_state(&self) -> (r: VMStatus)
        ensures
            r == self.status,
    {
        self.status
    }

    /// The record's id.
    pub fn get_id(&self) -> (r: String)
        ensures
            r@ == self.vm_id_view(),
    {
        self.configuration.vm_id.clone()
    }

    /// Moves the record to a new lifecycle status; everything else stays.
    pub fn set_state(&mut self, state: VMStatus)
        ensures
            final(self).status == state,
            final(self).configuration == old(self).configuration,
            final(self).ip == old(self).ip,
            final(self).port_mapping == old(self).port_mapping,
    {
        match state {
            VMStatus::Pending => {
                self.status = state;
            },
            VMStatus::Running => {
                self.status = state;
            },
            VMStatus::Exited => {
                self.status = state;
            },
            VMStatus::Terminated => {
                self.status = state;
            },
        }
    }
}

/// Whether some record of `vms` carries the id `id`.
pub open spec fn has_vm(vms: Seq<VMState>, id: Seq<char>) -> bool {
    exists|i: int| 0 <= i < vms.len() && (#[trigger] vms[i]).vm_id_view() == id
}

/// Whether some non-terminal record of `vms` holds the address `a`.
pub open spec fn ip_claimed(vms: Seq<VMState>, a: u32) -> bool {
    exists|i: int|
        0 <= i < vms.len() && (#[trigger] vms[i]).non_terminal() && (vms[i].ip matches Some(ip)
            && ip.addr == a)
}

/// Whether some non-terminal record of `vms` claims the host port `p`.
pub open spec fn port_claimed(vms: Seq<VMState>, p: u16) -> bool {
    exists|i: int|
        0 <= i < vms.len() && (#[trigger] vms[i]).non_terminal() && vms[i].claims_host_port(p)
}

/// The host ports of one record's mapping, in order.
pub open spec fn ports_of(vm: VMState) -> Seq<u16> {
    vm.port_mapping@.map_values(|p: (u16, u16)| p.0)
}

/// The host ports of every record's mapping, in registry order.
pub open spec fn used_ports_seq(vms: Seq<VMState>) -> Seq<u16>
    decreases vms.len(),
{
    if vms.len() == 0 {
        Seq::empty()
    } else {
        ports_of(vms[0]) + used_ports_seq(vms.drop_first())
    }
}

proof fn lemma_used_ports_push(vms: Seq<VMState>, x: VMState)
    ensures
        used_ports_seq(vms.push(x)) =~= used_ports_seq(vms) + ports_of(x),
    decreases vms.len(),
{
    assert(vms.push(x)[0] == if vms.len() == 0 {
        x
    } else {
        vms[0]
    });
    assert(used_ports_seq(vms.push(x)) == ports_of(vms.push(x)[0]) + used_ports_seq(
        vms.push(x).drop_first(),
    ));
    if vms.len() == 0 {
        assert(vms.push(x).drop_first() =~= Seq::<VMState>::empty());
        assert(used_ports_seq(vms) =~= Seq::<u16>::empty());
        assert(used_ports_seq(Seq::<VMState>::empty()) =~= Seq::<u16>::empty());
        assert(used_ports_seq(vms.push(x)) =~= ports_of(x));
    } else {
        assert(vms.push(x).drop_first() =~= vms.drop_first().push(x));
        lemma_used_ports_push(vms.drop_first(), x);
        assert(used_ports_seq(vms.push(x)) =~= ports_of(vms[0]) + (used_ports_seq(vms.drop_first())
            + ports_of(x)));
    }
}

/// The shared registry: every VM record and the active configuration. The
/// surrounding binary guards the one instance with an exclusive lock for the
/// whole of each start or stop sequence.
pub struct LambdoState {
    /// The records, in insertion order.
    pub vms: Vec<VMState>,
    /// The active configuration.
    pub config: LambdoConfig,
}

/// The registry invariant over a record sequence: ids unique across all
/// records for the collection's lifetime; among non-terminal records,
/// assigned addresses pairwise distinct and host ports pairwise disjoint;
/// every record well formed.
pub open spec fn vms_wf(vms: Seq<VMState>) -> bool {
    &&& (forall|i: int| 0 <= i < vms.len() ==> (#[trigger] vms[i]).wf())
    &&& (forall|i: int, j: int|
        0 <= i < j < vms.len() ==> (#[trigger] vms[i]).vm_id_view() != (
        #[trigger] vms[j]).vm_id_view())
    &&& (forall|i: int, j: int|
        0 <= i < j < vms.len() && (#[trigger] vms[i]).non_terminal() && (
        #[trigger] vms[j]).non_terminal() && vms[i].ip is Some && vms[j].ip is Some ==> vms[i].ip
            .unwrap().addr != vms[j].ip.unwrap().addr)
    &&& (forall|i: int, j: int, p: u16|
        0 <= i < j < vms.len() && vms[i].non_terminal() && vms[j].non_terminal() ==> !(
        #[trigger] vms[i].claims_host_port(p) && #[trigger] vms[j].claims_host_port(p)))
}

/// Freshness of a record against a registry: its id is new, and — while it
/// is non-terminal — its address and host ports collide with no
/// non-terminal record.
pub open spec fn fresh_against(vms: Seq<VMState>, x: VMState) -> bool {
    &&& !has_vm(vms, x.vm_id_view())
    &&& x.non_terminal() ==> ((x.ip matches Some(ip) ==> !ip_claimed(vms, ip.addr)) && (forall|
        p: u16,
    | #[trigger] x.claims_host_port(p) ==> !port_claimed(vms, p)))
}

/// Inserting a well-formed fresh record preserves the registry invariant.
pub proof fn lemma_vms_wf_push(vms: Seq<VMState>, x: VMState)
    requires
        vms_wf(vms),
        x.wf(),
        fresh_against(vms, x),
    ensures
        vms_wf(vms.push(x)),
{
    let s = vms.push(x);
    assert forall|i: int, j: int|
        0 <= i < j < s.len() implies (#[trigger] s[i]).vm_id_view() != (
    #[trigger] s[j]).vm_id_view() by {
        if j == vms.len() {
            assert(s[j] == x);
            assert(s[i] == vms[i]);
        }
    }
    assert forall|i: int, j: int|
        0 <= i < j < s.len() && (#[trigger] s[i]).non_terminal() && (#[trigger] s[j]).non_terminal()
            && s[i].ip is Some && s[j].ip is Some implies s[i].ip.unwrap().addr
        != s[j].ip.unwrap().addr by {
        if j == vms.len() {
            assert(s[j] == x);
            assert(s[i] == vms[i]);
        }
    }
    assert forall|i: int, j: int, p: u16|
        0 <= i < j < s.len() && s[i].non_terminal() && s[j].non_terminal() implies !(
    #[trigger] s[i].claims_host_port(p) && #[trigger] s[j].claims_host_port(p)) by {
        if j == vms.len() {
            assert(s[j] == x);
            assert(s[i] == vms[i]);
        }
    }
}

/// Removing a record preserves the registry invariant.
pub proof fn lemma_vms_wf_remove(vms: Seq<VMState>, i: int)
    requires
        vms_wf(vms),
        0 <= i < vms.len(),
    ensures
        vms_wf(vms.remove(i)),
{
    let s = vms.remove(i);
    assert forall|a: int| 0 <= a < s.len() implies (#[trigger] s[a]).wf() by {
        if a < i {
            assert(s[a] == vms[a]);
        } else {
            assert(s[a] == vms[a + 1]);
        }
    }
    assert forall|a: int, b: int|
        0 <= a < b < s.len() implies (#[trigger] s[a]).vm_id_view() != (
    #[trigger] s[b]).vm_id_view() by {
        let a0 = if a < i {
            a
        } else {
            a + 1
        };
        let b0 = if b < i {
            b
        } else {
            b + 1
        };
        assert(s[a] == vms[a0]);
        assert(s[b] == vms[b0]);
    }
    assert forall|a: int, b: int|
        0 <= a < b < s.len() && (#[trigger] s[a]).non_terminal() && (#[trigger] s[b]).non_terminal()
            && s[a].ip is Some && s[b].ip is Some implies s[a].ip.unwrap().addr
        != s[b].ip.unwrap().addr by {
        let a0 = if a < i {
            a
        } else {
            a + 1
        };
        let b0 = if b < i {
            b
        } else {
            b + 1
        };
        assert(s[a] == vms[a0]);
        assert(s[b] == vms[b0]);
    }
    assert forall|a: int, b: int, p: u16|
        0 <= a < b < s.len() && s[a].non_terminal() && s[b].non_terminal() implies !(
    #[trigger] s[a].claims_host_port(p) && #[trigger] s[b].claims_host_port(p)) by {
        let a0 = if a < i {
            a
        } else {
            a + 1
        };
        let b0 = if b < i {
            b
        } else {
            b + 1
        };
        assert(s[a] == vms[a0]);
        assert(s[b] == vms[b0]);
    }
}

/// Uniqueness law of the registry: no two distinct non-terminal records of
/// a well-formed registry share an assigned address or a host port, and no
/// two records at all share an id. Every registry the library hands out
/// satisfies `vms_wf` — starts insert only records fresh against it and
/// stops only remove — so this holds along any sequence of successful
/// starts and stops.
pub proof fn lemma_registry_uniqueness(vms: Seq<VMState>, i: int, j: int, p: u16)
    requires
        vms_wf(vms),
        0 <= i < vms.len(),
        0 <= j < vms.len(),
        i != j,
    ensures
        vms[i].vm_id_view() != vms[j].vm_id_view(),
        vms[i].non_terminal() && vms[j].non_terminal() && vms[i].ip is Some && vms[j].ip is Some
            ==> vms[i].ip.unwrap().addr != vms[j].ip.unwrap().addr,
        vms[i].non_terminal() && vms[j].non_terminal() ==> !(vms[i].claims_host_port(p)
            && vms[j].claims_host_port(p)),
{
    if i < j {
        assert(vms[i].vm_id_view() != vms[j].vm_id_view());
    } else {
        assert(vms[j].vm_id_view() != vms[i].vm_id_view());
    }
}

/// Stop is consuming: once the record at `i` is removed, no record with its
/// id remains, so a second stop of the same id reports `VmNotFound` and a
/// port-mapping query for it reports no record.
pub proof fn lemma_stop_consuming(vms: Seq<VMState>, i: int)
    requires
        vms_wf(vms),
        0 <= i < vms.len(),
    ensures
        !has_vm(vms.remove(i), vms[i].vm_id_view()),
{
    let id = vms[i].vm_id_view();
    let s = vms.remove(i);
    if has_vm(s, id) {
        let k = choose|k: int| 0 <= k < s.len() && (#[trigger] s[k]).vm_id_view() == id;
        let k0 = if k < i {
            k
        } else {
            k + 1
        };
        assert(s[k] == vms[k0]);
        lemma_registry_uniqueness(vms, k0, i, 0);
    }
}

impl LambdoState {
    /// The registry invariant; see `vms_wf`.
    pub open spec fn wf(self) -> bool {
        vms_wf(self.vms@)
    }

    /// An empty registry around a configuration.
    pub fn new(config: LambdoConfig) -> (r: Self)
        ensures
            r.vms@ =~= Seq::<VMState>::empty(),
            r.config == config,
            r.wf(),
    {
        LambdoState { vms: Vec::new(), config }
    }

    /// Every host port any record's mapping claims, in registry order.
    pub fn get_used_ports(&self) -> (r: Vec<u16>)
        ensures
            r@ == used_ports_seq(self.vms@),
    {
        let mut r: Vec<u16> = Vec::new();
        let mut i: usize = 0;
        while i < self.vms.len()
            invariant
                i <= self.vms@.len(),
                r@ == used_ports_seq(self.vms@.subrange(0, i as int)),
            decreases self.vms@.len() - i,
        {
            let vm = &self.vms[i];
            let mut j: usize = 0;
            while j < vm.port_mapping.len()
                invariant
                    j <= vm.port_mapping@.len(),
                    r@ == used_ports_seq(self.vms@.subrange(0, i as int)) + vm.port_mapping@
                        .subrange(0, j as int).map_values(|p: (u16, u16)| p.0),
                    i < self.vms@.len(),
                    vm == self.vms@[i as int],
                decreases vm.port_mapping@.len() - j,
            {
                r.push(vm.port_mapping[j].0);
                proof {
                    assert(vm.port_mapping@.subrange(0, (j + 1) as int) =~= vm.port_mapping@
                        .subrange(0, j as int).push(vm.port_mapping@[j as int]));
                    assert(vm.port_mapping@.subrange(0, (j + 1) as int).map_values(
                        |p: (u16, u16)| p.0,
                    ) =~= vm.port_mapping@.subrange(0, j as int).map_values(|p: (u16, u16)| p.0)
                        .push(vm.port_mapping@[j as int].0));
                }
                j = j + 1;
            }
            proof {
                assert(vm.port_mapping@.subrange(0, vm.port_mapping@.len() as int) =~= vm
                    .port_mapping@);
                lemma_used_ports_push(self.vms@.subrange(0, i as int), self.vms@[i as int]);
                assert(self.vms@.subrange(0, (i + 1) as int) =~= self.vms@.subrange(
                    0,
                    i as int,
                ).push(self.vms@[i as int]));
                assert(r@ =~= used_ports_seq(self.vms@.subrange(0, (i + 1) as int)));
            }
            i = i + 1;
        }
        proof {
            assert(self.vms@.subrange(0, self.vms@.len() as int) =~= self.vms@);
        }
        r
    }

    /// The port mapping of the record with id `vm_id`, or nothing when no
    /// record carries that id — a legitimate outcome right after a stop.
    pub fn get_used_ports_of_vm(&self, vm_id: &str) -> (r: Option<Vec<(u16, u16)>>)
        ensures
            r is Some <==> has_vm(self.vms@, vm_id@),
            r matches Some(m) ==> exists|i: int|
                0 <= i < self.vms@.len() && (#[trigger] self.vms@[i]).vm_id_view() == vm_id@ && m@
                    == self.vms@[i].port_mapping@,
    {
        let mut i: usize = 0;
        while i < self.vms.len()
            invariant
                i <= self.vms@.len(),
                forall|k: int| 0 <= k < i ==> (#[trigger] self.vms@[k]).vm_id_view() != vm_id@,
            decreases self.vms@.len() - i,
        {
            if str_eq(self.vms[i].configuration.vm_id.as_str(), vm_id) {
                let mut m: Vec<(u16, u16)> = Vec::new();
                let vm = &self.vms[i];
                let mut j: usize = 0;
                while j < vm.port_mapping.len()
                    invariant
                        j <= vm.port_mapping@.len(),
                        m@ =~= vm.port_mapping@.subrange(0, j as int),
                        i < self.vms@.len(),
                        vm == self.vms@[i as int],
                    decreases vm.port_mapping@.len() - j,
                {
                    m.push(vm.port_mapping[j]);
                    j = j + 1;
                }
                proof {
                    assert(m@ =~= self.vms@[i as int].port_mapping@);
                }
                return Some(m);
            }
            i = i + 1;
        }
        None
    }
}

/// Whether two strings spell the same characters.
pub fn str_eq(a: &str, b: &str) -> (r: bool)
    ensures
        r == (a@ == b@),
{
    let na = a.unicode_len();
    let nb = b.unicode_len();
    if na != nb {
        return false;
    }
    let mut i: usize = 0;
    while i < na
        invariant
            i <= na,
            na == a@.len(),
            na == b@.len(),
            forall|k: int| 0 <= k < i ==> a@[k] == b@[k],
        decreases na - i,
    {
        if a.get_char(i) != b.get_char(i) {
            return false;
        }
        i = i + 1;
    }
    proof {
        assert(a@ =~= b@);
    }
    true
}

} // verus!
