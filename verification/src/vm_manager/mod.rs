//! The VM lifecycle orchestrator: request/option types, the shared registry
//! (`state`), host-network planning (`net`), and the start/stop sequencing
//! against the external execution backend (`vmm`).

pub mod net;
pub mod state;
pub mod vmm;

use vstd::prelude::*;

verus! {

/// Body of a spawn request: a root filesystem image id and the guest ports
/// that must become reachable.
pub struct SimpleSpawn {
    pub rootfs: String,
    pub requested_ports: Vec<u16>,
}

/// Boot options as they arrive over the wire: image ids, not yet resolved to
/// local paths.
pub struct BootOptionsDTO {
    /// Kernel boot arguments
    pub boot_args: Option<String>,
    /// Host level path to the initrd image used to boot the guest
    pub initrd_path: Option<String>,
    /// Host level path to the kernel image used to boot the guest
    pub kernel_image_path: String,
}

/// Boot options with images resolved to local paths.
pub struct BootOptions {
    /// Kernel boot arguments
    pub boot_args: Option<String>,
    /// Resolved initrd image used to boot the guest
    pub initrd: Option<crate::image::Image>,
    /// Resolved kernel image used to boot the guest
    pub kernel: crate::image::Image,
}

/// One disk as it arrives over the wire.
pub struct DiskOptionsDTO {
    pub id: String,
    pub is_readonly: bool,
    pub is_root_device: bool,
}

/// One disk with its image resolved to a local path.
pub struct DiskOptions {
    pub image: crate::image::Image,
    pub is_readonly: bool,
    pub is_root_device: bool,
}

/// A full start request as it arrives over the wire.
pub struct VMOptionsDTO {
    pub boot: BootOptionsDTO,
    pub disks: Vec<DiskOptionsDTO>,
    pub network: NetworkOptions,
}

/// A full start request with every image resolved.
pub struct VMOptions {
    pub boot: BootOptions,
    pub disks: Vec<DiskOptions>,
    pub network: NetworkOptions,
}

/// The requested port mapping: pairs of (host port, guest port).
pub struct NetworkOptions {
    pub port_mapping: Vec<(u16, u16)>,
}

/// Validates the configured bridge name and address, before any network
/// resource is touched: the address must spell an IPv4 address with prefix
/// length, and the name must satisfy the host's interface-name length
/// limit. Both failures are fatal at startup.
pub fn validate_bridge_config(name: &str, address: &str) -> (r: Result<net::IpNet, vmm::Error>)
    ensures
        r is Ok <==> (net::spec_parse_inet(address@) is Some && name@.len() <= 15),
        r matches Ok(inet) ==> net::spec_parse_inet(address@) == Some(inet) && inet.wf(),
        net::spec_parse_inet(address@) is None ==> (r matches Err(e) && e matches
            vmm::Error::NetSetupError(m) && m@ == "invalid bridge address"@),
        net::spec_parse_inet(address@) is Some && name@.len() > 15 ==> (r matches Err(e)
            && e matches vmm::Error::NetSetupError(m) && m@ == "bridge name is too long"@),
{
    let inet = match net::parse_inet(address) {
        Some(inet) => inet,
        None => {
            return Err(vmm::Error::NetSetupError(String::from_str("invalid bridge address")));
        },
    };
    if name.unicode_len() > 15 {
        return Err(vmm::Error::NetSetupError(String::from_str("bridge name is too long")));
    }
    Ok(inet)
}

/// Whether the configured address is already assigned to the bridge: some
/// interface address equals it, netmask included. The caller hands in the
/// bridge's addresses as (address, netmask) pairs.
pub fn address_present(addrs: &Vec<(u32, Option<u32>)>, inet: net::IpNet) -> (r: bool)
    requires
        inet.wf(),
    ensures
        r == exists|i: int|
            0 <= i < addrs@.len() && (#[trigger] addrs@[i]).0 == inet.addr && addrs@[i].1 == Some(
                net::mask_of(inet.prefix as nat) as u32,
            ),
{
    let mask = inet.mask();
    let mut i: usize = 0;
    while i < addrs.len()
        invariant
            i <= addrs@.len(),
            mask == net::mask_of(inet.prefix as nat) as u32,
            inet.wf(),
            forall|k: int|
                0 <= k < i ==> !((#[trigger] addrs@[k]).0 == inet.addr && addrs@[k].1 == Some(
                    net::mask_of(inet.prefix as nat) as u32,
                )),
        decreases addrs@.len() - i,
    {
        let (a, m) = addrs[i];
        if a == inet.addr {
            match m {
                Some(mv) => {
                    if mv == mask {
                        return true;
                    }
                },
                None => {},
            }
        }
        i = i + 1;
    }
    false
}

/// The forward-accept rule between two interfaces.
pub open spec fn forward_accept_rule_str(inif: Seq<char>, outif: Seq<char>) -> Seq<char> {
    "-i "@ + inif + " -o "@ + outif + " -j ACCEPT"@
}

/// The masquerade rule for traffic leaving through an interface.
pub open spec fn masquerade_out_rule_str(outif: Seq<char>) -> Seq<char> {
    "-o "@ + outif + " -j MASQUERADE"@
}

/// The firewall rules a bridge bootstrap installs: none when the bridge and
/// its address were both already present (a warm restart must not duplicate
/// rules); otherwise forward-accept in both directions between the default
/// route interface and the bridge, and a masquerade for outbound traffic.
pub open spec fn spec_bridge_firewall_rules(
    bridge_existed: bool,
    address_existed: bool,
    default_iface: Seq<char>,
    bridge: Seq<char>,
) -> Seq<(Seq<char>, Seq<char>, Seq<char>)> {
    if bridge_existed && address_existed {
        Seq::empty()
    } else {
        seq![
            ("filter"@, "FORWARD"@, forward_accept_rule_str(default_iface, bridge)),
            ("filter"@, "FORWARD"@, forward_accept_rule_str(bridge, default_iface)),
            ("nat"@, "POSTROUTING"@, masquerade_out_rule_str(default_iface)),
        ]
    }
}

fn forward_accept_rule(inif: &str, outif: &str) -> (r: String)
    ensures
        r@ == forward_accept_rule_str(inif@, outif@),
{
    let mut s = String::from_str("-i ");
    s.append(inif);
    s.append(" -o ");
    s.append(outif);
    s.append(" -j ACCEPT");
    proof {
        assert(s@ =~= forward_accept_rule_str(inif@, outif@));
    }
    s
}

/// The firewall rules one bridge bootstrap run installs, given whether the
/// bridge and its address were already present.
pub fn bridge_firewall_rules(
    bridge_existed: bool,
    address_existed: bool,
    default_iface: &str,
    bridge: &str,
) -> (r: Vec<net::IptablesRule>)
    ensures
        r@.len() == spec_bridge_firewall_rules(
            bridge_existed,
            address_existed,
            default_iface@,
            bridge@,
        ).len(),
        forall|i: int|
            0 <= i < r@.len() ==> (#[trigger] r@[i])@ == spec_bridge_firewall_rules(
                bridge_existed,
                address_existed,
                default_iface@,
                bridge@,
            )[i],
{
    let mut r: Vec<net::IptablesRule> = Vec::new();
    if bridge_existed && address_existed {
        return r;
    }
    r.push(
        net::IptablesRule {
            table: String::from_str("filter"),
            chain: String::from_str("FORWARD"),
            rule: forward_accept_rule(default_iface, bridge),
        },
    );
    r.push(
        net::IptablesRule {
            table: String::from_str("filter"),
            chain: String::from_str("FORWARD"),
            rule: forward_accept_rule(bridge, default_iface),
        },
    );
    let mut masq = String::from_str("-o ");
    masq.append(default_iface);
    masq.append(" -j MASQUERADE");
    proof {
        assert(masq@ =~= masquerade_out_rule_str(default_iface@));
    }
    r.push(
        net::IptablesRule {
            table: String::from_str("nat"),
            chain: String::from_str("POSTROUTING"),
            rule: masq,
        },
    );
    r
}

/// Bridge bootstrap is idempotent: a first run leaves the bridge created
/// and its address assigned, so a second run — which then sees both in
/// place — plans no firewall rules at all; the rules of the first run are
/// installed exactly once, and only when something was missing.
pub proof fn lemma_bootstrap_idempotent(
    bridge_existed: bool,
    address_existed: bool,
    default_iface: Seq<char>,
    bridge: Seq<char>,
)
    ensures
        spec_bridge_firewall_rules(true, true, default_iface, bridge).len() == 0,
        !(bridge_existed && address_existed) ==> spec_bridge_firewall_rules(
            bridge_existed,
            address_existed,
            default_iface,
            bridge,
        ).len() == 3,
{
}

} // verus!
