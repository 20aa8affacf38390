//! Sequencing of VM creation and teardown against the external execution
//! backend: the backend configuration model, start preparation and commit,
//! record removal on stop, and the stop-error priority rule.

use crate::vm_manager::net;
use crate::vm_manager::VMOptions;
use vstd::prelude::*;

verus! {

/// Every failure the orchestrator can report.
#[derive(Debug)]
pub enum Error {
    /// The execution backend's configuration could not be built.
    VmmNew(String),
    /// The execution backend failed while creating the VM.
    VmmConfigure(String),
    /// The execution backend failed while running the VM.
    VmmRun(String),
    /// An image could not be resolved.
    ImageError(String),
    /// Any other failure.
    Other(String),
    /// A host-networking step failed.
    NetSetupError(String),
    /// Every address of the bridge subnet is claimed.
    NoIPAvailable,
    /// No record with the requested id exists.
    VmNotFound,
    /// The requested VM already reached a terminal status.
    VmAlreadyEnded,
}

/// The message `Error::describe` renders for a value.
pub open spec fn spec_describe(e: Error) -> Seq<char> {
    match e {
        Error::VmmNew(r) => "Error while creating VMM: "@ + r@,
        Error::VmmConfigure(r) => "Error while configuring VMM: "@ + r@,
        Error::VmmRun(r) => "Error while running VMM: "@ + r@,
        Error::ImageError(r) => "Error with images: "@ + r@,
        Error::Other(r) => "Other error: "@ + r@,
        Error::NetSetupError(r) => "Error while setting up network: "@ + r@,
        Error::NoIPAvailable => "No IP address available"@,
        Error::VmNotFound => "VM not found"@,
        Error::VmAlreadyEnded => "VM already ended"@,
    }
}

impl Error {
    /// A human-readable message for this failure.
    pub fn describe(&self) -> (r: String)
        ensures
            r@ == spec_describe(*self),
    {
        match self {
            Error::VmmNew(reason) => {
                let mut s = String::from_str("Error while creating VMM: ");
                s.append(reason.as_str());
                s
            },
            Error::VmmConfigure(reason) => {
                let mut s = String::from_str("Error while configuring VMM: ");
                s.append(reason.as_str());
                s
            },
            Error::VmmRun(reason) => {
                let mut s = String::from_str("Error while running VMM: ");
                s.append(reason.as_str());
                s
            },
            Error::ImageError(reason) => {
                let mut s = String::from_str("Error with images: ");
                s.append(reason.as_str());
                s
            },
            Error::Other(reason) => {
                let mut s = String::from_str("Other error: ");
                s.append(reason.as_str());
                s
            },
            Error::NetSetupError(reason) => {
                let mut s = String::from_str("Error while setting up network: ");
                s.append(reason.as_str());
                s
            },
            Error::NoIPAvailable => String::from_str("No IP address available"),
            Error::VmNotFound => String::from_str("VM not found"),
            Error::VmAlreadyEnded => String::from_str("VM already ended"),
        }
    }
}

/// One disk of the execution backend's configuration.
#[derive(Debug)]
pub struct Drive {
    pub drive_id: String,
    pub path_on_host: String,
    pub is_read_only: bool,
    pub is_root_device: bool,
}

/// The configuration handed to the external execution backend: kernel,
/// boot arguments, disks, and the host tap device the guest's interface
/// binds to.
#[derive(Debug)]
pub struct VmConfiguration {
    /// The VM's unique id.
    pub vm_id: String,
    /// Host path of the kernel image.
    pub kernel_image_path: String,
    /// Kernel boot arguments.
    pub boot_args: String,
    /// Host path of the initrd image, if any.
    pub initrd_path: Option<String>,
    /// The disks, in order.
    pub drives: Vec<Drive>,
    /// Name of the host tap device the guest's interface binds to.
    pub host_dev_name: String,
    /// The guest-side interface id.
    pub iface_id: String,
    /// The chroot the backend runs under.
    pub chroot: String,
    /// Host path of the backend executable.
    pub exec_binary: String,
}

/// The boot arguments a request carries, or the default ones.
pub open spec fn spec_base_boot_args(opts: VMOptions) -> Seq<char> {
    match opts.boot.boot_args {
        Some(b) => b@,
        None => "console=ttyS0 reboot=k panic=1 pci=off nomodule"@,
    }
}

/// Builds the execution-backend configuration for a start request: the
/// resolved kernel, initrd and disks, the request's (or the default) boot
/// arguments, and the fixed executor settings. The tap-device name starts
/// as the bridge name and is replaced once the tap device is named.
pub fn build_configuration(opts: &VMOptions, id: String) -> (r: VmConfiguration)
    ensures
        r.vm_id == id,
        r.kernel_image_path@ == opts.boot.kernel.path@,
        r.boot_args@ == spec_base_boot_args(*opts),
        r.initrd_path is Some <==> opts.boot.initrd is Some,
        opts.boot.initrd matches Some(img) ==> (r.initrd_path matches Some(p) && p@ == img.path@),
        r.drives@.len() == opts.disks@.len(),
        forall|i: int|
            0 <= i < opts.disks@.len() ==> {
                &&& (#[trigger] r.drives@[i]).drive_id@ == opts.disks@[i].image.id@
                &&& r.drives@[i].path_on_host@ == opts.disks@[i].image.path@
                &&& r.drives@[i].is_read_only == opts.disks@[i].is_readonly
                &&& r.drives@[i].is_root_device == opts.disks@[i].is_root_device
            },
        r.host_dev_name@ == "lambdo0"@,
        r.iface_id@ == "tap0"@,
        r.chroot@ == "/tmp"@,
        r.exec_binary@ == "/usr/bin/firecracker"@,
{
    let mut drives: Vec<Drive> = Vec::new();
    let mut i: usize = 0;
    while i < opts.disks.len()
        invariant
            i <= opts.disks@.len(),
            drives@.len() == i,
            forall|j: int|
                0 <= j < i ==> {
                    &&& (#[trigger] drives@[j]).drive_id@ == opts.disks@[j].image.id@
                    &&& drives@[j].path_on_host@ == opts.disks@[j].image.path@
                    &&& drives@[j].is_read_only == opts.disks@[j].is_readonly
                    &&& drives@[j].is_root_device == opts.disks@[j].is_root_device
                },
        decreases opts.disks@.len() - i,
    {
        let d = &opts.disks[i];
        drives.push(
            Drive {
                drive_id: d.image.id.clone(),
                path_on_host: d.image.path.clone(),
                is_read_only: d.is_readonly,
                is_root_device: d.is_root_device,
            },
        );
        i = i + 1;
    }
    let boot_args = match &opts.boot.boot_args {
        Some(b) => b.clone(),
        None => String::from_str("console=ttyS0 reboot=k panic=1 pci=off nomodule"),
    };
    let initrd_path = match &opts.boot.initrd {
        Some(img) => Some(img.path.clone()),
        None => None,
    };
    VmConfiguration {
        vm_id: id,
        kernel_image_path: opts.boot.kernel.path.clone(),
        boot_args,
        initrd_path,
        drives,
        host_dev_name: String::from_str("lambdo0"),
        iface_id: String::from_str("tap0"),
        chroot: String::from_str("/tmp"),
        exec_binary: String::from_str("/usr/bin/firecracker"),
    }
}

/// The first position at or after `from` of `key` among the host ports of
/// `s`, or `-1`.
pub open spec fn key_index(s: Seq<(u16, u16)>, key: u16, from: int) -> int
    decreases s.len() - from,
{
    if from < 0 || from >= s.len() {
        -1
    } else if s[from].0 == key {
        from
    } else {
        key_index(s, key, from + 1)
    }
}

/// One step of mapping normalization: a pair replaces the entry of its host
/// port, or is appended when the port is new.
pub open spec fn upsert(acc: Seq<(u16, u16)>, p: (u16, u16)) -> Seq<(u16, u16)> {
    let k = key_index(acc, p.0, 0);
    if k >= 0 {
        acc.update(k, p)
    } else {
        acc.push(p)
    }
}

/// The normalized form of a requested port mapping: one entry per host
/// port, the later of two entries with the same host port winning — the
/// shape the mapping takes once it is keyed by host port.
pub open spec fn dedup_pm(s: Seq<(u16, u16)>) -> Seq<(u16, u16)>
    decreases s.len(),
{
    if s.len() == 0 {
        Seq::empty()
    } else {
        upsert(dedup_pm(s.drop_last()), s.last())
    }
}

/// Host ports of the normalized mapping are pairwise distinct.
pub proof fn lemma_dedup_pm_unique(s: Seq<(u16, u16)>)
    ensures
        forall|a: int, b: int|
            0 <= a < b < dedup_pm(s).len() ==> (#[trigger] dedup_pm(s)[a]).0 != (
            #[trigger] dedup_pm(s)[b]).0,
    decreases s.len(),
{
    if s.len() > 0 {
        lemma_dedup_pm_unique(s.drop_last());
        let acc = dedup_pm(s.drop_last());
        let p = s.last();
        let k = key_index(acc, p.0, 0);
        if k >= 0 {
            lemma_key_index_bounds(acc, p.0, 0);
        } else {
            lemma_key_index_none(acc, p.0, 0);
        }
    }
}

/// A mapping whose host ports are already pairwise distinct normalizes to
/// itself: an explicit request round-trips into the record verbatim.
pub proof fn lemma_dedup_pm_identity(s: Seq<(u16, u16)>)
    requires
        forall|a: int, b: int| 0 <= a < b < s.len() ==> (#[trigger] s[a]).0 != (#[trigger] s[b]).0,
    ensures
        dedup_pm(s) == s,
    decreases s.len(),
{
    if s.len() > 0 {
        lemma_dedup_pm_identity(s.drop_last());
        let acc = dedup_pm(s.drop_last());
        let p = s.last();
        let k = key_index(acc, p.0, 0);
        if k >= 0 {
            lemma_key_index_bounds(acc, p.0, 0);
            assert(s.drop_last()[k] == s[k]);
            assert(false);
        }
        assert(acc.push(p) =~= s);
    }
}

/// A found key index lies in range and holds the key.
proof fn lemma_key_index_bounds(s: Seq<(u16, u16)>, key: u16, from: int)
    requires
        0 <= from,
        key_index(s, key, from) >= 0,
    ensures
        from <= key_index(s, key, from) < s.len(),
        s[key_index(s, key, from)].0 == key,
    decreases s.len() - from,
{
    if from < s.len() && s[from].0 != key {
        lemma_key_index_bounds(s, key, from + 1);
    }
}

/// A missing key occurs nowhere at or after `from`.
proof fn lemma_key_index_none(s: Seq<(u16, u16)>, key: u16, from: int)
    requires
        0 <= from,
        key_index(s, key, from) < 0,
    ensures
        forall|k: int| from <= k < s.len() ==> (#[trigger] s[k]).0 != key,
    decreases s.len() - from,
{
    if from < s.len() {
        lemma_key_index_none(s, key, from + 1);
    }
}

/// Finds the position of `key` among the host ports of `m`.
fn find_key(m: &Vec<(u16, u16)>, key: u16) -> (r: Option<usize>)
    ensures
        match r {
            Some(k) => key_index(m@, key, 0) == k && k < m@.len() && m@[k as int].0 == key,
            None => key_index(m@, key, 0) == -1,
        },
{
    let mut i: usize = 0;
    while i < m.len()
        invariant
            i <= m@.len(),
            key_index(m@, key, 0) == key_index(m@, key, i as int),
        decreases m@.len() - i,
    {
        if m[i].0 == key {
            return Some(i);
        }
        i = i + 1;
    }
    None
}

/// Normalizes a requested port mapping: keyed by host port, the later of
/// two entries with the same host port winning.
pub fn dedup_port_mapping(input: &Vec<(u16, u16)>) -> (r: Vec<(u16, u16)>)
    ensures
        r@ == dedup_pm(input@),
        forall|a: int, b: int| 0 <= a < b < r@.len() ==> (#[trigger] r@[a]).0 != (#[trigger] r@[b]).0,
{
    let mut r: Vec<(u16, u16)> = Vec::new();
    let mut i: usize = 0;
    proof {
        assert(input@.subrange(0, 0) =~= Seq::<(u16, u16)>::empty());
    }
    while i < input.len()
        invariant
            i <= input@.len(),
            r@ == dedup_pm(input@.subrange(0, i as int)),
        decreases input@.len() - i,
    {
        let p = input[i];
        let ghost pre = input@.subrange(0, i as int);
        proof {
            assert(input@.subrange(0, (i + 1) as int).drop_last() =~= pre);
            assert(input@.subrange(0, (i + 1) as int).last() == input@[i as int]);
        }
        match find_key(&r, p.0) {
            Some(k) => {
                r.set(k, p);
            },
            None => {
                r.push(p);
            },
        }
        i = i + 1;
    }
    proof {
        assert(input@.subrange(0, input@.len() as int) =~= input@);
        lemma_dedup_pm_unique(input@);
    }
    r
}

/// Whether some non-terminal record of `vms` claims the host port `p`.
fn port_is_claimed(vms: &Vec<crate::vm_manager::state::VMState>, p: u16) -> (r: bool)
    ensures
        r == crate::vm_manager::state::port_claimed(vms@, p),
{
    let mut i: usize = 0;
    while i < vms.len()
        invariant
            i <= vms@.len(),
            forall|k: int|
                0 <= k < i ==> !((#[trigger] vms@[k]).non_terminal() && vms@[k].claims_host_port(
                    p,
                )),
        decreases vms@.len() - i,
    {
        let vm = &vms[i];
        let terminal = vm.status == crate::vm_manager::state::VMStatus::Exited || vm.status
            == crate::vm_manager::state::VMStatus::Terminated;
        if !terminal {
            let mut j: usize = 0;
            while j < vm.port_mapping.len()
                invariant
                    j <= vm.port_mapping@.len(),
                    i < vms@.len(),
                    vm == vms@[i as int],
                    vm.non_terminal(),
                    forall|k: int| 0 <= k < j ==> (#[trigger] vm.port_mapping@[k]).0 != p,
                decreases vm.port_mapping@.len() - j,
            {
                if vm.port_mapping[j].0 == p {
                    proof {
                        assert(vm.claims_host_port(p));
                    }
                    return true;
                }
                j = j + 1;
            }
            proof {
                assert(!vm.claims_host_port(p));
            }
        }
        i = i + 1;
    }
    false
}

/// Generates a fresh VM id.
///
/// Relies on `uuid::Uuid::new_v4` and its `Display` rendering: the
/// hyphenated form, 36 characters, each a lowercase hexadecimal digit or a
/// hyphen. The value itself is random, so nothing more is stated of it; the
/// caller checks it against the registry before using it.
#[verifier::external_body]
pub fn generate_vm_id() -> (r: String)
    ensures
        r@.len() == 36,
        forall|i: int|
            0 <= i < 36 ==> ((48 <= (#[trigger] r@[i]) as int <= 57) || (97 <= r@[i] as int <= 102)
                || r@[i] == '-'),
{
    uuid::Uuid::new_v4().to_string()
}

/// Whether the mapping `m` claims the host port `p`.
pub open spec fn mapping_claims(m: Seq<(u16, u16)>, p: u16) -> bool {
    exists|k: int| 0 <= k < m.len() && (#[trigger] m[k]).0 == p
}

/// A free address the pool scan yields is claimed by no non-terminal record
/// and lies in the scanned range.
proof fn lemma_first_free_unclaimed(
    vms: Seq<crate::vm_manager::state::VMState>,
    c: int,
    end: int,
)
    ensures
        net::first_free_ip(vms, c, end) matches Some(a) ==> !crate::vm_manager::state::ip_claimed(
            vms,
            a,
        ) && c <= a <= end,
    decreases end + 1 - c,
{
    if c <= end && 0 <= c && end < 0x1_0000_0000 {
        if crate::vm_manager::state::ip_claimed(vms, c as u32) {
            lemma_first_free_unclaimed(vms, c + 1, end);
        }
    }
}

/// Prepares a start request against the current registry: checks the id is
/// new, scans the pool for a free address, names the tap device, normalizes
/// the mapping and checks every requested host port against the
/// non-terminal records before any rule is installed, appends the network
/// boot argument, and computes the exact rules to install. Nothing is
/// inserted yet; `commit_start` inserts the record once the host resources
/// and the backend are up.
pub fn prepare_start(
    state: &crate::vm_manager::state::LambdoState,
    options: &VMOptions,
    id: String,
) -> (r: Result<(crate::vm_manager::state::VMState, Vec<net::IptablesRule>), Error>)
    requires
        state.wf(),
        net::spec_parse_inet(state.config.api.network.bridge_address@) is Some,
        id@.len() >= 8,
    ensures
        ({
            let bridge = net::spec_parse_inet(state.config.api.network.bridge_address@).unwrap();
            let free = net::spec_find_available_ip(state.vms@, bridge);
            let mapping = dedup_pm(options.network.port_mapping@);
            let collision = exists|p: u16|
                #[trigger] mapping_claims(mapping, p) && crate::vm_manager::state::port_claimed(
                    state.vms@,
                    p,
                );
            &&& (crate::vm_manager::state::has_vm(state.vms@, id@) ==> (r matches Err(e)
                && (e matches Error::Other(m) && m@ == "VM id already in use"@)))
            &&& (!crate::vm_manager::state::has_vm(state.vms@, id@) && free is None ==> (r matches
            Err(e) && e is NoIPAvailable))
            &&& (!crate::vm_manager::state::has_vm(state.vms@, id@) && free is Some && collision
                ==> (r matches Err(e) && (e matches Error::NetSetupError(m) && m@
                == "Port mapping already exists"@)))
            &&& (r is Ok <==> (!crate::vm_manager::state::has_vm(state.vms@, id@) && free is Some
                && !collision))
            &&& (r matches Ok((record, rules)) ==> {
                let ip = record.ip.unwrap();
                &&& record.vm_id_view() == id@
                &&& record.status == crate::vm_manager::state::VMStatus::Pending
                &&& record.ip is Some
                &&& ip.addr == free.unwrap()
                &&& ip.prefix == bridge.prefix
                &&& record.port_mapping@ == mapping
                &&& record.wf()
                &&& crate::vm_manager::state::fresh_against(state.vms@, record)
                &&& record.configuration.kernel_image_path@ == options.boot.kernel.path@
                &&& record.configuration.boot_args@ == spec_base_boot_args(*options)
                    + net::network_boot_arg(
                    ip.addr,
                    net::gateway_part(state.config.api.network.bridge_address@),
                    net::mask_of(ip.prefix as nat) as u32,
                )
                &&& record.configuration.host_dev_name@ == net::spec_tap_name(id@)
                &&& record.configuration.iface_id@ == "tap0"@
                &&& record.configuration.chroot@ == "/tmp"@
                &&& record.configuration.exec_binary@ == "/usr/bin/firecracker"@
                &&& (record.configuration.initrd_path is Some <==> options.boot.initrd is Some)
                &&& (options.boot.initrd matches Some(img) ==> (
                record.configuration.initrd_path matches Some(p) && p@ == img.path@))
                &&& record.configuration.drives@.len() == options.disks@.len()
                &&& (forall|i: int|
                    0 <= i < options.disks@.len() ==> {
                        &&& (#[trigger] record.configuration.drives@[i]).drive_id@
                            == options.disks@[i].image.id@
                        &&& record.configuration.drives@[i].path_on_host@
                            == options.disks@[i].image.path@
                        &&& record.configuration.drives@[i].is_read_only
                            == options.disks@[i].is_readonly
                        &&& record.configuration.drives@[i].is_root_device
                            == options.disks@[i].is_root_device
                    })
                &&& rules@.len() == 3 * mapping.len()
                &&& (forall|i: int|
                    0 <= i < rules@.len() ==> (#[trigger] rules@[i])@ == net::port_rule_at(
                        ip.addr,
                        mapping,
                        i,
                    ))
            })
        }),
{
    let mut i: usize = 0;
    while i < state.vms.len()
        invariant
            i <= state.vms@.len(),
            forall|k: int|
                0 <= k < i ==> (#[trigger] state.vms@[k]).vm_id_view() != id@,
        decreases state.vms@.len() - i,
    {
        if crate::vm_manager::state::str_eq(
            state.vms[i].configuration.vm_id.as_str(),
            id.as_str(),
        ) {
            proof {
                assert((#[trigger] state.vms@[i as int]).vm_id_view() == id@);
                assert(crate::vm_manager::state::has_vm(state.vms@, id@));
            }
            return Err(Error::Other(String::from_str("VM id already in use")));
        }
        i = i + 1;
    }
    let mut cfg = build_configuration(options, id);
    let ip = match net::find_available_ip(state) {
        Ok(ip) => ip,
        Err(e) => {
            return Err(e);
        },
    };
    proof {
        lemma_first_free_unclaimed(
            state.vms@,
            net::spec_parse_inet(state.config.api.network.bridge_address@).unwrap().addr + 1,
            net::net_end(net::spec_parse_inet(state.config.api.network.bridge_address@).unwrap()),
        );
    }
    let tap = net::tap_device_name(cfg.vm_id.as_str());
    cfg.host_dev_name = tap;
    let mut vm = crate::vm_manager::state::VMState::new(cfg);
    vm.port_mapping = dedup_port_mapping(&options.network.port_mapping);
    vm.ip = Some(ip);
    net::add_boot_option(&mut vm, state.config.api.network.bridge_address.as_str());
    let mut k: usize = 0;
    while k < vm.port_mapping.len()
        invariant
            k <= vm.port_mapping@.len(),
            !crate::vm_manager::state::has_vm(state.vms@, id@),
            net::spec_parse_inet(state.config.api.network.bridge_address@) is Some,
            net::spec_find_available_ip(
                state.vms@,
                net::spec_parse_inet(state.config.api.network.bridge_address@).unwrap(),
            ) is Some,
            vm.port_mapping@ == dedup_pm(options.network.port_mapping@),
            forall|l: int|
                0 <= l < k ==> !crate::vm_manager::state::port_claimed(
                    state.vms@,
                    (#[trigger] vm.port_mapping@[l]).0,
                ),
        decreases vm.port_mapping@.len() - k,
    {
        if port_is_claimed(&state.vms, vm.port_mapping[k].0) {
            proof {
                let p = vm.port_mapping@[k as int].0;
                assert(mapping_claims(dedup_pm(options.network.port_mapping@), p));
                assert(crate::vm_manager::state::port_claimed(state.vms@, p));
            }
            return Err(
                Error::NetSetupError(String::from_str("Port mapping already exists")),
            );
        }
        k = k + 1;
    }
    proof {
        assert forall|p: u16| #[trigger]
            vm.claims_host_port(p) implies !crate::vm_manager::state::port_claimed(
            state.vms@,
            p,
        ) by {
            let l = choose|l: int|
                0 <= l < vm.port_mapping@.len() && vm.port_mapping@[l].0 == p;
            assert(!crate::vm_manager::state::port_claimed(state.vms@, vm.port_mapping@[l].0));
        }
        assert forall|p: u16| #[trigger]
            mapping_claims(vm.port_mapping@, p) implies !crate::vm_manager::state::port_claimed(
            state.vms@,
            p,
        ) by {
            let l = choose|l: int|
                0 <= l < vm.port_mapping@.len() && vm.port_mapping@[l].0 == p;
            assert(!crate::vm_manager::state::port_claimed(state.vms@, vm.port_mapping@[l].0));
        }
    }
    let rules = net::port_mapping_rules(ip, &vm.port_mapping);
    Ok((vm, rules))
}

/// Commits a prepared start once the host resources and the backend are
/// up: the record becomes `Running` — the backend confirmed the guest — and
/// is inserted as the registry's newest entry. Freshness of the record
/// against the registry is required, so the registry invariant is
/// preserved.
pub fn commit_start(
    state: &mut crate::vm_manager::state::LambdoState,
    record: crate::vm_manager::state::VMState,
)
    requires
        old(state).wf(),
        record.wf(),
        record.status == crate::vm_manager::state::VMStatus::Pending,
        crate::vm_manager::state::fresh_against(old(state).vms@, record),
    ensures
        final(state).vms@.len() == old(state).vms@.len() + 1,
        final(state).vms@.subrange(0, old(state).vms@.len() as int) == old(state).vms@,
        ({
            let committed = final(state).vms@.last();
            &&& committed.configuration == record.configuration
            &&& committed.status == crate::vm_manager::state::VMStatus::Running
            &&& committed.ip == record.ip
            &&& committed.port_mapping == record.port_mapping
        }),
        final(state).config == old(state).config,
        final(state).wf(),
{
    let mut record = record;
    let ghost pre = record;
    record.set_state(crate::vm_manager::state::VMStatus::Running);
    proof {
        assert forall|p: u16| #[trigger]
            record.claims_host_port(p) implies pre.claims_host_port(p) by {
            let k = choose|k: int|
                0 <= k < record.port_mapping@.len() && record.port_mapping@[k].0 == p;
            assert(pre.port_mapping@[k].0 == p);
        }
        assert(crate::vm_manager::state::fresh_against(state.vms@, record));
        crate::vm_manager::state::lemma_vms_wf_push(state.vms@, record);
    }
    state.vms.push(record);
    proof {
        assert(state.vms@.subrange(0, old(state).vms@.len() as int) =~= old(state).vms@);
    }
}

/// Removes the record with `id` from the registry, handing it to the caller
/// for teardown; removal comes first so a second stop cannot double-release.
/// Reports `VmNotFound` exactly when no record carries `id`; after a
/// successful removal no record with `id` remains.
pub fn remove_vm(state: &mut crate::vm_manager::state::LambdoState, id: &str) -> (r: Result<
    crate::vm_manager::state::VMState,
    Error,
>)
    requires
        old(state).wf(),
    ensures
        final(state).config == old(state).config,
        final(state).wf(),
        r is Err <==> !crate::vm_manager::state::has_vm(old(state).vms@, id@),
        r matches Err(e) ==> e is VmNotFound && final(state).vms@ == old(state).vms@,
        r matches Ok(vm) ==> exists|i: int|
            0 <= i < old(state).vms@.len() && (#[trigger] old(state).vms@[i]).vm_id_view() == id@
                && vm == old(state).vms@[i] && final(state).vms@ == old(state).vms@.remove(i),
        r is Ok ==> !crate::vm_manager::state::has_vm(final(state).vms@, id@),
{
    let mut i: usize = 0;
    while i < state.vms.len()
        invariant
            i <= state.vms@.len(),
            state.wf(),
            state == old(state),
            forall|k: int|
                0 <= k < i ==> (#[trigger] state.vms@[k]).vm_id_view() != id@,
        decreases state.vms@.len() - i,
    {
        if crate::vm_manager::state::str_eq(state.vms[i].configuration.vm_id.as_str(), id) {
            proof {
                crate::vm_manager::state::lemma_vms_wf_remove(state.vms@, i as int);
                crate::vm_manager::state::lemma_stop_consuming(state.vms@, i as int);
            }
            let vm = state.vms.remove(i);
            return Ok(vm);
        }
        i = i + 1;
    }
    Err(Error::VmNotFound)
}

/// Plans the network cleanup of a removed record: the exact rules its
/// mapping installed — to be removed with matching parameters — or a
/// failure when the record never got an address.
pub fn cleanup_rules(vm: &crate::vm_manager::state::VMState) -> (r: Result<
    Vec<net::IptablesRule>,
    Error,
>)
    ensures
        vm.ip is None ==> (r matches Err(e) && (e matches Error::Other(m) && m@
            == "VM has no IP address"@)),
        r is Ok <==> vm.ip is Some,
        r matches Ok(rules) ==> {
            &&& rules@.len() == 3 * vm.port_mapping@.len()
            &&& (forall|i: int|
                0 <= i < rules@.len() ==> (#[trigger] rules@[i])@ == net::port_rule_at(
                    vm.ip.unwrap().addr,
                    vm.port_mapping@,
                    i,
                ))
        },
{
    let ip = match &vm.ip {
        Some(ip) => *ip,
        None => {
            return Err(Error::Other(String::from_str("VM has no IP address")));
        },
    };
    Ok(net::port_mapping_rules(ip, &vm.port_mapping))
}

/// Reports the outcome of a stop sequence: a backend-stop failure is
/// reported in preference to a network-cleanup failure.
pub fn stop_report(backend: Result<(), Error>, cleanup: Result<(), Error>) -> (r: Result<
    (),
    Error,
>)
    ensures
        backend is Err ==> r == backend,
        backend is Ok && cleanup is Err ==> r == cleanup,
        backend is Ok && cleanup is Ok ==> r is Ok,
{
    match cleanup {
        Ok(()) => backend,
        Err(e) => {
            if backend.is_err() {
                backend
            } else {
                Err(e)
            }
        },
    }
}

} // verus!
