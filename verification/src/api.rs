//! Data carried over the HTTP surface: the response of the start and spawn
//! routes, and the helper that picks ephemeral host ports for a spawn
//! request.

use vstd::prelude::*;

verus! {

/// Response body of the start and spawn routes.
pub struct StartResponse {
    pub id: String,
    pub port_mapping: Vec<(u16, u16)>,
}

impl From<(String, Vec<(u16, u16)>)> for StartResponse {
    fn from(value: (String, Vec<(u16, u16)>)) -> (r: StartResponse) {
        StartResponse { id: value.0, port_mapping: value.1 }
    }
}

impl vstd::std_specs::convert::FromSpecImpl<(String, Vec<(u16, u16)>)> for StartResponse {
    open spec fn obeys_from_spec() -> bool {
        true
    }

    open spec fn from_spec(value: (String, Vec<(u16, u16)>)) -> StartResponse {
        StartResponse { id: value.0, port_mapping: value.1 }
    }
}

/// The least port of the ephemeral range `[p, 20000)` that is neither in
/// `used` nor in `taken`, or nothing when the range is exhausted.
pub open spec fn least_free_port(used: Seq<u16>, taken: Seq<u16>, p: int) -> Option<u16>
    decreases 20000 - p,
{
    if p < 10000 || p >= 20000 {
        None
    } else if !used.contains(p as u16) && !taken.contains(p as u16) {
        Some(p as u16)
    } else {
        least_free_port(used, taken, p + 1)
    }
}

/// The mapping the ephemeral-port selection yields: one host port per
/// requested guest port, each the least port of the range 10000–19999 that
/// is neither already used nor chosen earlier in the same request.
pub open spec fn spec_ephemeral_mapping(used: Seq<u16>, requested: Seq<u16>) -> Option<
    Seq<(u16, u16)>,
>
    decreases requested.len(),
{
    if requested.len() == 0 {
        Some(Seq::empty())
    } else {
        match spec_ephemeral_mapping(used, requested.drop_last()) {
            None => None,
            Some(acc) => match least_free_port(
                used,
                acc.map_values(|pr: (u16, u16)| pr.0),
                10000,
            ) {
                None => None,
                Some(h) => Some(acc.push((h, requested.last()))),
            },
        }
    }
}

proof fn lemma_least_free_port_ok(used: Seq<u16>, taken: Seq<u16>, p: int)
    ensures
        least_free_port(used, taken, p) matches Some(h) ==> p <= h < 20000 && 10000 <= h
            && !used.contains(h) && !taken.contains(h),
    decreases 20000 - p,
{
    if 10000 <= p < 20000 {
        lemma_least_free_port_ok(used, taken, p + 1);
    }
}

/// Ephemeral allocation law: when the selection succeeds, it yields one
/// host port per requested guest port, in request order; every chosen host
/// port lies in the range 10000–19999, is not among the used ports, and the
/// chosen ports are pairwise distinct.
pub proof fn lemma_ephemeral_ports_ok(used: Seq<u16>, requested: Seq<u16>)
    ensures
        spec_ephemeral_mapping(used, requested) matches Some(m) ==> {
            &&& m.len() == requested.len()
            &&& (forall|i: int| 0 <= i < m.len() ==> (#[trigger] m[i]).1 == requested[i])
            &&& (forall|i: int| 0 <= i < m.len() ==> 10000 <= (#[trigger] m[i]).0 < 20000)
            &&& (forall|i: int| 0 <= i < m.len() ==> !used.contains((#[trigger] m[i]).0))
            &&& (forall|i: int, j: int|
                0 <= i < j < m.len() ==> (#[trigger] m[i]).0 != (#[trigger] m[j]).0)
        },
    decreases requested.len(),
{
    if requested.len() > 0 && spec_ephemeral_mapping(used, requested) is Some {
        lemma_ephemeral_ports_ok(used, requested.drop_last());
        let acc = spec_ephemeral_mapping(used, requested.drop_last()).unwrap();
        let taken = acc.map_values(|pr: (u16, u16)| pr.0);
        let h = least_free_port(used, taken, 10000).unwrap();
        lemma_least_free_port_ok(used, taken, 10000);
        let m = acc.push((h, requested.last()));
        assert forall|i: int, j: int| 0 <= i < j < m.len() implies (#[trigger] m[i]).0 != (
        #[trigger] m[j]).0 by {
            if j == m.len() - 1 {
                assert(m[i] == acc[i]);
                assert(taken[i] == acc[i].0);
                assert(!taken.contains(h));
            }
        }
        assert forall|i: int| 0 <= i < m.len() implies (#[trigger] m[i]).1 == requested[i] by {
            if i < m.len() - 1 {
                assert(m[i] == acc[i]);
                assert(requested.drop_last()[i] == requested[i]);
            }
        }
    }
}

/// Once selection fails on a prefix of the request, it fails on the whole
/// request.
proof fn lemma_ephemeral_prefix_none(used: Seq<u16>, requested: Seq<u16>, i: int)
    requires
        0 <= i <= requested.len(),
        spec_ephemeral_mapping(used, requested.subrange(0, i)) is None,
    ensures
        spec_ephemeral_mapping(used, requested) is None,
    decreases requested.len() - i,
{
    if i < requested.len() {
        assert(requested.subrange(0, i + 1).drop_last() =~= requested.subrange(0, i));
        lemma_ephemeral_prefix_none(used, requested, i + 1);
    } else {
        assert(requested.subrange(0, requested.len() as int) =~= requested);
    }
}

/// Checks whether `v` holds `x`.
fn contains_u16(v: &Vec<u16>, x: u16) -> (r: bool)
    ensures
        r == v@.contains(x),
{
    let mut i: usize = 0;
    while i < v.len()
        invariant
            i <= v@.len(),
            forall|k: int| 0 <= k < i ==> v@[k] != x,
        decreases v@.len() - i,
    {
        if v[i] == x {
            return true;
        }
        i = i + 1;
    }
    proof {
        assert(!v@.contains(x));
    }
    false
}

/// Checks whether a chosen mapping already claims the host port `x`.
fn chosen_contains(chosen: &Vec<(u16, u16)>, x: u16) -> (r: bool)
    ensures
        r == chosen@.map_values(|pr: (u16, u16)| pr.0).contains(x),
{
    let ghost taken = chosen@.map_values(|pr: (u16, u16)| pr.0);
    let mut i: usize = 0;
    while i < chosen.len()
        invariant
            i <= chosen@.len(),
            taken == chosen@.map_values(|pr: (u16, u16)| pr.0),
            forall|k: int| 0 <= k < i ==> (#[trigger] chosen@[k]).0 != x,
        decreases chosen@.len() - i,
    {
        if chosen[i].0 == x {
            proof {
                assert(taken[i as int] == x);
            }
            return true;
        }
        i = i + 1;
    }
    proof {
        assert forall|k: int| 0 <= k < taken.len() implies taken[k] != x by {
            assert(taken[k] == chosen@[k].0);
        }
        assert(!taken.contains(x));
    }
    false
}

/// Chooses host ports for a spawn request: for each requested guest port,
/// in order, the least port of the ephemeral range 10000–19999 that no
/// record uses and that this request has not chosen yet. Fails when the
/// range is exhausted.
pub fn select_ephemeral_ports(used_ports: &Vec<u16>, requested: &Vec<u16>) -> (r: Result<
    Vec<(u16, u16)>,
    crate::vm_manager::vmm::Error,
>)
    ensures
        match spec_ephemeral_mapping(used_ports@, requested@) {
            Some(m) => r matches Ok(v) && v@ == m,
            None => r matches Err(e) && (e matches crate::vm_manager::vmm::Error::NetSetupError(
                msg,
            ) && msg@ == "No free port found"@),
        },
{
    let mut chosen: Vec<(u16, u16)> = Vec::new();
    let mut i: usize = 0;
    proof {
        assert(requested@.subrange(0, 0) =~= Seq::<u16>::empty());
    }
    while i < requested.len()
        invariant
            i <= requested@.len(),
            spec_ephemeral_mapping(used_ports@, requested@.subrange(0, i as int)) == Some(chosen@),
        decreases requested@.len() - i,
    {
        let guest = requested[i];
        let ghost pre = requested@.subrange(0, i as int);
        let ghost taken = chosen@.map_values(|pr: (u16, u16)| pr.0);
        proof {
            assert(requested@.subrange(0, (i + 1) as int).drop_last() =~= pre);
            assert(requested@.subrange(0, (i + 1) as int).last() == requested@[i as int]);
        }
        let mut p: u16 = 10000;
        let mut found: bool = false;
        let mut host: u16 = 0;
        while p < 20000
            invariant_except_break
                10000 <= p <= 20000,
                !found,
                taken == chosen@.map_values(|pr: (u16, u16)| pr.0),
                least_free_port(used_ports@, taken, 10000) == least_free_port(
                    used_ports@,
                    taken,
                    p as int,
                ),
            ensures
                found ==> least_free_port(used_ports@, taken, 10000) == Some(host),
                !found ==> least_free_port(used_ports@, taken, 10000) is None,
                taken == chosen@.map_values(|pr: (u16, u16)| pr.0),
            decreases 20000 - p,
        {
            if !contains_u16(used_ports, p) && !chosen_contains(&chosen, p) {
                found = true;
                host = p;
                proof {
                    assert(least_free_port(used_ports@, taken, p as int) == Some(p));
                }
                break ;
            }
            p = p + 1;
        }
        if !found {
            proof {
                assert(spec_ephemeral_mapping(used_ports@, requested@.subrange(0, (i + 1) as int))
                    is None);
                lemma_ephemeral_prefix_none(used_ports@, requested@, i + 1);
            }
            return Err(
                crate::vm_manager::vmm::Error::NetSetupError(
                    String::from_str("No free port found"),
                ),
            );
        }
        chosen.push((host, guest));
        i = i + 1;
    }
    proof {
        assert(requested@.subrange(0, requested@.len() as int) =~= requested@);
    }
    Ok(chosen)
}

/// The options a spawn request expands into: the fixed kernel, no initrd,
/// default boot arguments, the root filesystem as the single writable root
/// disk, and the chosen port mapping.
pub fn simple_spawn_options(
    kernel: crate::image::Image,
    rootfs: crate::image::Image,
    port_mapping: Vec<(u16, u16)>,
) -> (r: crate::vm_manager::VMOptions)
    ensures
        r.boot.kernel == kernel,
        r.boot.initrd is None,
        r.boot.boot_args is None,
        r.disks@.len() == 1,
        r.disks@[0].image == rootfs,
        r.disks@[0].is_readonly == false,
        r.disks@[0].is_root_device == true,
        r.network.port_mapping == port_mapping,
{
    let mut disks: Vec<crate::vm_manager::DiskOptions> = Vec::new();
    disks.push(
        crate::vm_manager::DiskOptions { image: rootfs, is_readonly: false, is_root_device: true },
    );
    crate::vm_manager::VMOptions {
        boot: crate::vm_manager::BootOptions { boot_args: None, initrd: None, kernel },
        disks,
        network: crate::vm_manager::NetworkOptions { port_mapping },
    }
}

} // verus!
