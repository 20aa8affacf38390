//! Pure host-networking computations: the IPv4 model (`IpNet`), the bridge
//! CIDR grammar, address-pool scanning, tap-device naming, kernel
//! boot-argument construction, and the exact packet-filter rule strings that
//! are installed on start and removed with matching parameters on stop.

use vstd::arithmetic::power2::{
    lemma_pow2_adds, lemma_pow2_pos, lemma_pow2_strictly_increases, lemma_pow2_unfold, pow2,
};
use vstd::prelude::*;

verus! {

/// The character for one decimal digit.
pub open spec fn digit_char(d: nat) -> char
    recommends
        d < 10,
{
    if d == 0 {
        '0'
    } else if d == 1 {
        '1'
    } else if d == 2 {
        '2'
    } else if d == 3 {
        '3'
    } else if d == 4 {
        '4'
    } else if d == 5 {
        '5'
    } else if d == 6 {
        '6'
    } else if d == 7 {
        '7'
    } else if d == 8 {
        '8'
    } else {
        '9'
    }
}

/// The canonical decimal rendering of a number: no leading zeros, `0` for
/// zero.
pub open spec fn dec_str(n: nat) -> Seq<char>
    decreases n,
{
    if n < 10 {
        seq![digit_char(n)]
    } else {
        dec_str(n / 10).push(digit_char(n % 10))
    }
}

/// Appends the character of one decimal digit to a string.
fn push_digit(s: &mut String, d: u8)
    requires
        d < 10,
    ensures
        final(s)@ == old(s)@ + seq![digit_char(d as nat)],
{
    let lit: &str = match d {
        0 => "0",
        1 => "1",
        2 => "2",
        3 => "3",
        4 => "4",
        5 => "5",
        6 => "6",
        7 => "7",
        8 => "8",
        _ => "9",
    };
    proof {
        reveal_strlit("0");
        reveal_strlit("1");
        reveal_strlit("2");
        reveal_strlit("3");
        reveal_strlit("4");
        reveal_strlit("5");
        reveal_strlit("6");
        reveal_strlit("7");
        reveal_strlit("8");
        reveal_strlit("9");
        assert(lit@ =~= seq![digit_char(d as nat)]);
    }
    s.append(lit);
}

/// Appends the canonical decimal rendering of `n` to a string.
pub fn push_dec(s: &mut String, n: u64)
    ensures
        final(s)@ == old(s)@ + dec_str(n as nat),
    decreases n,
{
    if n >= 10 {
        push_dec(s, n / 10);
    }
    push_digit(s, (n % 10) as u8);
    proof {
        assert(final(s)@ =~= old(s)@ + dec_str(n as nat));
    }
}

/// The canonical decimal rendering of `n`, as an owned string.
pub fn dec_string(n: u64) -> (r: String)
    ensures
        r@ == dec_str(n as nat),
{
    let mut s = String::new();
    push_dec(&mut s, n);
    proof {
        assert(s@ =~= dec_str(n as nat));
    }
    s
}

/// Whether `c` is a decimal digit.
pub open spec fn is_dec_digit(c: char) -> bool {
    48 <= c as int && c as int <= 57
}

/// The value of one decimal digit character.
pub open spec fn digit_val(c: char) -> nat
    recommends
        is_dec_digit(c),
{
    (c as int - 48) as nat
}

/// The number a digit string spells.
pub open spec fn dec_val(s: Seq<char>) -> nat
    decreases s.len(),
{
    if s.len() == 0 {
        0
    } else {
        dec_val(s.drop_last()) * 10 + digit_val(s.last())
    }
}

/// Whether every character of `s` is a decimal digit.
pub open spec fn all_digits(s: Seq<char>) -> bool {
    forall|i: int| 0 <= i < s.len() ==> is_dec_digit(s[i])
}

/// A canonical decimal number: nonempty, digits only, and no leading zero.
pub open spec fn is_canonical_dec(s: Seq<char>) -> bool {
    s.len() > 0 && all_digits(s) && (s.len() == 1 || s[0] != '0')
}

/// A canonical decimal octet: spells a number up to 255.
pub open spec fn valid_octet_str(s: Seq<char>) -> bool {
    is_canonical_dec(s) && dec_val(s) <= 255
}

/// A canonical decimal prefix length: spells a number up to 32.
pub open spec fn valid_prefix_str(s: Seq<char>) -> bool {
    is_canonical_dec(s) && dec_val(s) <= 32
}

/// The first position at or after `from` holding `c`, or `-1`.
pub open spec fn find_char(s: Seq<char>, c: char, from: int) -> int
    decreases s.len() - from,
{
    if from < 0 || from >= s.len() {
        -1
    } else if s[from] == c {
        from
    } else {
        find_char(s, c, from + 1)
    }
}

/// The bridge-address grammar: four canonical decimal octets separated by
/// dots, a slash, and a canonical decimal prefix length up to 32. The value
/// is the address the octets spell and the prefix length.
pub open spec fn spec_parse_inet(s: Seq<char>) -> Option<IpNet> {
    let k = find_char(s, '/', 0);
    let i1 = find_char(s, '.', 0);
    let i2 = find_char(s, '.', i1 + 1);
    let i3 = find_char(s, '.', i2 + 1);
    if 0 <= i1 && i1 < i2 && i2 < i3 && i3 < k && valid_octet_str(s.subrange(0, i1))
        && valid_octet_str(s.subrange(i1 + 1, i2)) && valid_octet_str(s.subrange(i2 + 1, i3))
        && valid_octet_str(s.subrange(i3 + 1, k)) && valid_prefix_str(
        s.subrange(k + 1, s.len() as int),
    ) {
        Some(
            IpNet {
                addr: (dec_val(s.subrange(0, i1)) * 0x1000000 + dec_val(s.subrange(i1 + 1, i2))
                    * 0x10000 + dec_val(s.subrange(i2 + 1, i3)) * 0x100 + dec_val(
                    s.subrange(i3 + 1, k),
                )) as u32,
                prefix: dec_val(s.subrange(k + 1, s.len() as int)) as u8,
            },
        )
    } else {
        None
    }
}

/// The address part of a bridge-address string: everything before the first
/// slash. This is the gateway as the configuration file spells it.
pub open spec fn gateway_part(s: Seq<char>) -> Seq<char> {
    s.subrange(0, find_char(s, '/', 0))
}

/// An IPv4 address inside a network: the address itself and the network's
/// prefix length. This is the in-memory form of a `a.b.c.d/len` string.
#[derive(Debug, Clone, Copy, PartialEq, Eq, Structural)]
pub struct IpNet {
    /// The address, as the 32-bit big-endian number its four octets spell.
    pub addr: u32,
    /// The network prefix length, at most 32.
    pub prefix: u8,
}

/// The four octets of an address.
pub open spec fn octet0(a: u32) -> nat {
    a as nat / 0x1000000
}

pub open spec fn octet1(a: u32) -> nat {
    (a as nat / 0x10000) % 256
}

pub open spec fn octet2(a: u32) -> nat {
    (a as nat / 0x100) % 256
}

pub open spec fn octet3(a: u32) -> nat {
    a as nat % 256
}

/// The dotted-quad rendering of an address.
pub open spec fn ip_str(a: u32) -> Seq<char> {
    dec_str(octet0(a)) + seq!['.'] + dec_str(octet1(a)) + seq!['.'] + dec_str(octet2(a)) + seq![
        '.',
    ] + dec_str(octet3(a))
}

/// Appends the dotted-quad rendering of an address to a string.
pub fn push_ip(s: &mut String, a: u32)
    ensures
        final(s)@ == old(s)@ + ip_str(a),
{
    push_dec(s, (a / 0x1000000) as u64);
    push_dot(s);
    push_dec(s, ((a / 0x10000) % 256) as u64);
    push_dot(s);
    push_dec(s, ((a / 0x100) % 256) as u64);
    push_dot(s);
    push_dec(s, (a % 256) as u64);
    proof {
        assert(final(s)@ =~= old(s)@ + ip_str(a));
    }
}

/// Appends a dot to a string.
fn push_dot(s: &mut String)
    ensures
        final(s)@ == old(s)@ + seq!['.'],
{
    proof {
        reveal_strlit(".");
        assert("."@ =~= seq!['.']);
    }
    s.append(".");
}

/// The dotted-quad rendering of an address, as an owned string.
pub fn ip_string(a: u32) -> (r: String)
    ensures
        r@ == ip_str(a),
{
    let mut s = String::new();
    push_ip(&mut s, a);
    proof {
        assert(s@ =~= ip_str(a));
    }
    s
}

/// `2` to the power `k`, as a machine word.
fn pow2_u64(k: u8) -> (r: u64)
    requires
        k <= 32,
    ensures
        r == pow2(k as nat),
{
    let mut i: u8 = 0;
    let mut r: u64 = 1;
    proof {
        vstd::arithmetic::power2::lemma2_to64();
    }
    while i < k
        invariant
            i <= k <= 32,
            r == pow2(i as nat),
            r <= 0x1_0000_0000,
        decreases k - i,
    {
        proof {
            lemma_pow2_unfold((i + 1) as nat);
            if (i + 1) < 32 {
                lemma_pow2_strictly_increases((i + 1) as nat, 32);
            }
            vstd::arithmetic::power2::lemma2_to64();
        }
        r = r * 2;
        i = i + 1;
    }
    r
}

/// The number of addresses a prefix leaves to the host portion.
pub open spec fn block_size(prefix: nat) -> nat {
    pow2((32 - prefix) as nat)
}

/// The netmask a prefix length spells, as a 32-bit number.
pub open spec fn mask_of(prefix: nat) -> int {
    (pow2(prefix) - 1) * block_size(prefix)
}

proof fn lemma_mask_of_bound(prefix: nat)
    requires
        prefix <= 32,
    ensures
        mask_of(prefix) == pow2(32) - block_size(prefix),
        mask_of(prefix) < 0x1_0000_0000,
{
    lemma_pow2_adds(prefix, (32 - prefix) as nat);
    lemma_pow2_pos((32 - prefix) as nat);
    vstd::arithmetic::power2::lemma2_to64();
    assert((pow2(prefix) - 1) * pow2((32 - prefix) as nat) == pow2(prefix) * pow2(
        (32 - prefix) as nat,
    ) - pow2((32 - prefix) as nat)) by (nonlinear_arith);
}

/// The first address of the subnet `inet` lies in.
pub open spec fn net_base(inet: IpNet) -> int {
    inet.addr as nat - (inet.addr as nat % block_size(inet.prefix as nat))
}

/// The last address of the subnet `inet` lies in.
pub open spec fn net_end(inet: IpNet) -> int {
    net_base(inet) + block_size(inet.prefix as nat) - 1
}

proof fn lemma_net_range(inet: IpNet)
    requires
        inet.wf(),
    ensures
        net_base(inet) <= inet.addr,
        inet.addr <= net_end(inet),
        net_end(inet) < 0x1_0000_0000,
        net_base(inet) >= 0,
{
    let b = block_size(inet.prefix as nat) as int;
    let a = inet.addr as int;
    lemma_pow2_pos((32 - inet.prefix) as nat);
    vstd::arithmetic::div_mod::lemma_mod_bound(a, b);
    vstd::arithmetic::div_mod::lemma_fundamental_div_mod(a, b);
    let q = a / b;
    assert(net_base(inet) == b * q);
    lemma_pow2_adds(inet.prefix as nat, (32 - inet.prefix) as nat);
    vstd::arithmetic::power2::lemma2_to64();
    let p = pow2(inet.prefix as nat) as int;
    assert(p * b == 0x1_0000_0000);
    assert(b * q < p * b);
    assert(b * q + b <= p * b) by (nonlinear_arith)
        requires
            b * q < p * b,
            b > 0,
    ;
}

impl IpNet {
    /// A well-formed value: the prefix length fits an IPv4 address.
    pub open spec fn wf(self) -> bool {
        self.prefix <= 32
    }

    /// The netmask of this value's network, as a 32-bit number.
    pub fn mask(&self) -> (r: u32)
        requires
            self.wf(),
        ensures
            r == mask_of(self.prefix as nat),
    {
        proof {
            lemma_mask_of_bound(self.prefix as nat);
            lemma_pow2_pos(self.prefix as nat);
        }
        let ones = pow2_u64(self.prefix) - 1;
        let block = pow2_u64(32 - self.prefix);
        (ones * block) as u32
    }

    /// The `address/len` rendering of this value.
    pub fn display(&self) -> (r: String)
        ensures
            r@ == ip_str(self.addr) + seq!['/'] + dec_str(self.prefix as nat),
    {
        let mut s = ip_string(self.addr);
        proof {
            reveal_strlit("/");
            assert("/"@ =~= seq!['/']);
        }
        s.append("/");
        push_dec(&mut s, self.prefix as u64);
        proof {
            assert(s@ =~= ip_str(self.addr) + seq!['/'] + dec_str(self.prefix as nat));
        }
        s
    }


    /// The dotted-quad rendering of this value's netmask.
    pub fn mask_string(&self) -> (r: String)
        requires
            self.wf(),
        ensures
            r@ == ip_str(mask_of(self.prefix as nat) as u32),
    {
        let m = self.mask();
        ip_string(m)
    }
}

/// Finds the first position at or after `from` holding `c`.
fn find_char_exec(s: &str, n: usize, c: char, from: usize) -> (r: Option<usize>)
    requires
        n == s@.len(),
        from <= n,
    ensures
        match r {
            Some(i) => find_char(s@, c, from as int) == i && from <= i < n && s@[i as int] == c,
            None => find_char(s@, c, from as int) == -1,
        },
{
    let mut i: usize = from;
    while i < n
        invariant
            from <= i <= n,
            n == s@.len(),
            find_char(s@, c, from as int) == find_char(s@, c, i as int),
        decreases n - i,
    {
        if s.get_char(i) == c {
            return Some(i);
        }
        i = i + 1;
    }
    None
}

/// Parses `s[start..end)` as a canonical decimal number up to `bound`.
fn parse_dec_segment(s: &str, n: usize, start: usize, end: usize, bound: u64) -> (r: Option<u64>)
    requires
        n == s@.len(),
        start <= end <= n,
        bound <= 0xFFFF,
    ensures
        match r {
            Some(v) => is_canonical_dec(s@.subrange(start as int, end as int)) && v == dec_val(
                s@.subrange(start as int, end as int),
            ) && v <= bound,
            None => !(is_canonical_dec(s@.subrange(start as int, end as int)) && dec_val(
                s@.subrange(start as int, end as int),
            ) <= bound),
        },
{
    if start == end {
        return None;
    }
    let mut j: usize = start;
    let mut val: u64 = 0;
    let mut digits_ok: bool = true;
    let mut over: bool = false;
    while j < end
        invariant
            start <= j <= end <= n,
            n == s@.len(),
            bound <= 0xFFFF,
            digits_ok == all_digits(s@.subrange(start as int, j as int)),
            digits_ok && !over ==> val == dec_val(s@.subrange(start as int, j as int)) && val
                <= bound,
            digits_ok && over ==> dec_val(s@.subrange(start as int, j as int)) > bound,
        decreases end - j,
    {
        let c = s.get_char(j);
        let u = c as u32;
        let ghost pre = s@.subrange(start as int, j as int);
        let ghost ext = pre.push(s@[j as int]);
        proof {
            assert(s@.subrange(start as int, (j + 1) as int) =~= ext);
            assert(ext.drop_last() =~= pre);
            assert(ext.last() == s@[j as int]);
            if is_dec_digit(s@[j as int]) {
                if all_digits(pre) {
                    assert forall|i: int| 0 <= i < ext.len() implies is_dec_digit(ext[i]) by {
                        if i < pre.len() {
                            assert(ext[i] == pre[i]);
                        }
                    }
                } else {
                    let i = choose|i: int| 0 <= i < pre.len() && !is_dec_digit(pre[i]);
                    assert(ext[i] == pre[i]);
                    assert(!all_digits(ext));
                }
            } else {
                assert(ext[ext.len() - 1] == s@[j as int]);
                assert(!all_digits(ext));
            }
        }
        if !(48 <= u && u <= 57) {
            digits_ok = false;
        } else if digits_ok {
            let d = (u - 48) as u64;
            if !over {
                let next = val * 10 + d;
                if next > bound {
                    over = true;
                } else {
                    val = next;
                }
            } else {
                proof {
                    assert(dec_val(ext) == dec_val(pre) * 10 + digit_val(s@[j as int]));
                    assert(dec_val(pre) * 10 > bound);
                }
            }
        }
        j = j + 1;
    }
    let c0 = s.get_char(start);
    if !digits_ok || over || (end - start > 1 && c0 as u32 == 48) {
        proof {
            if digits_ok && !over && end - start > 1 && c0 as u32 == 48 {
                assert(s@.subrange(start as int, end as int)[0] == '0');
            }
        }
        return None;
    }
    Some(val)
}

/// Parses a bridge-address string of the form `a.b.c.d/len`.
pub fn parse_inet(s: &str) -> (r: Option<IpNet>)
    ensures
        r == spec_parse_inet(s@),
        r matches Some(inet) ==> inet.wf(),
{
    let n = s.unicode_len();
    let k = match find_char_exec(s, n, '/', 0) {
        Some(k) => k,
        None => {
            return None;
        },
    };
    let i1 = match find_char_exec(s, n, '.', 0) {
        Some(i) => i,
        None => {
            return None;
        },
    };
    let i2 = match find_char_exec(s, n, '.', i1 + 1) {
        Some(i) => i,
        None => {
            return None;
        },
    };
    let i3 = match find_char_exec(s, n, '.', i2 + 1) {
        Some(i) => i,
        None => {
            return None;
        },
    };
    if !(i3 < k) {
        return None;
    }
    let v0 = match parse_dec_segment(s, n, 0, i1, 255) {
        Some(v) => v,
        None => {
            return None;
        },
    };
    let v1 = match parse_dec_segment(s, n, i1 + 1, i2, 255) {
        Some(v) => v,
        None => {
            return None;
        },
    };
    let v2 = match parse_dec_segment(s, n, i2 + 1, i3, 255) {
        Some(v) => v,
        None => {
            return None;
        },
    };
    let v3 = match parse_dec_segment(s, n, i3 + 1, k, 255) {
        Some(v) => v,
        None => {
            return None;
        },
    };
    let p = match parse_dec_segment(s, n, k + 1, n, 32) {
        Some(v) => v,
        None => {
            return None;
        },
    };
    let addr = (v0 * 0x1000000 + v1 * 0x10000 + v2 * 0x100 + v3) as u32;
    Some(IpNet { addr, prefix: p as u8 })
}

/// The name of the tap device a VM id is given: a fixed prefix and the first
/// eight characters of the id. At most twelve characters, which satisfies
/// the host's interface-name length limit.
pub open spec fn spec_tap_name(id: Seq<char>) -> Seq<char> {
    "tap-"@ + id.subrange(0, 8)
}

/// Derives a VM's tap-device name from its id.
pub fn tap_device_name(id: &str) -> (r: String)
    requires
        id@.len() >= 8,
    ensures
        r@ == spec_tap_name(id@),
{
    let mut s = String::from_str("tap-");
    let t = id.substring_char(0, 8);
    s.append(t);
    proof {
        assert(s@ =~= spec_tap_name(id@));
    }
    s
}

/// The first free address in `[c, end]`, where a non-terminal record's
/// address is not free.
pub open spec fn first_free_ip(vms: Seq<crate::vm_manager::state::VMState>, c: int, end: int) -> Option<u32>
    recommends
        0 <= c,
        end < 0x1_0000_0000,
    decreases end + 1 - c,
{
    if c > end || c < 0 || end >= 0x1_0000_0000 {
        None
    } else if !crate::vm_manager::state::ip_claimed(vms, c as u32) {
        Some(c as u32)
    } else {
        first_free_ip(vms, c + 1, end)
    }
}

/// The address the pool scan yields for a bridge: starting right after the
/// bridge's own address, the first address of the subnet no non-terminal
/// record holds.
pub open spec fn spec_find_available_ip(
    vms: Seq<crate::vm_manager::state::VMState>,
    bridge: IpNet,
) -> Option<u32> {
    first_free_ip(vms, bridge.addr + 1, net_end(bridge))
}

/// Whether some non-terminal record holds the address `a`.
fn ip_is_claimed(vms: &Vec<crate::vm_manager::state::VMState>, a: u32) -> (r: bool)
    ensures
        r == crate::vm_manager::state::ip_claimed(vms@, a),
{
    let mut i: usize = 0;
    while i < vms.len()
        invariant
            i <= vms@.len(),
            forall|k: int|
                0 <= k < i ==> !((#[trigger] vms@[k]).non_terminal() && (vms@[k].ip matches Some(
                    ip,
                ) && ip.addr == a)),
        decreases vms@.len() - i,
    {
        let vm = &vms[i];
        let terminal = vm.status == crate::vm_manager::state::VMStatus::Exited || vm.status
            == crate::vm_manager::state::VMStatus::Terminated;
        if !terminal {
            match &vm.ip {
                Some(ip) => {
                    if ip.addr == a {
                        return true;
                    }
                },
                None => {},
            }
        }
        i = i + 1;
    }
    false
}

/// Pool exhaustion law: the scan over `[c, end]` comes back empty exactly
/// when every address of that range is claimed by a non-terminal record —
/// so a start reports `NoIPAvailable` exactly when the whole subnet after
/// the bridge's address is claimed, rather than hanging.
pub proof fn lemma_pool_exhaustion(
    vms: Seq<crate::vm_manager::state::VMState>,
    c: int,
    end: int,
)
    requires
        0 <= c,
        end < 0x1_0000_0000,
    ensures
        first_free_ip(vms, c, end) is None <==> (forall|a: int|
            c <= a <= end ==> crate::vm_manager::state::ip_claimed(vms, #[trigger] (a as u32))),
    decreases end + 1 - c,
{
    if c <= end {
        lemma_pool_exhaustion(vms, c + 1, end);
    }
}

proof fn lemma_first_free_skip(vms: Seq<crate::vm_manager::state::VMState>, c: int, end: int)
    requires
        0 <= c <= end,
        end < 0x1_0000_0000,
        crate::vm_manager::state::ip_claimed(vms, c as u32),
    ensures
        first_free_ip(vms, c, end) == first_free_ip(vms, c + 1, end),
{
}

/// Scans the bridge subnet for an address no non-terminal record holds:
/// starts right after the bridge's own address and increments, skipping the
/// claimed ones. Reports `NoIPAvailable` when every address of the subnet is
/// claimed.
pub fn find_available_ip(state: &crate::vm_manager::state::LambdoState) -> (r: Result<
    IpNet,
    crate::vm_manager::vmm::Error,
>)
    requires
        spec_parse_inet(state.config.api.network.bridge_address@) is Some,
    ensures
        ({
            let bridge = spec_parse_inet(state.config.api.network.bridge_address@).unwrap();
            match spec_find_available_ip(state.vms@, bridge) {
                Some(a) => r matches Ok(ip) && ip.addr == a && ip.prefix == bridge.prefix
                    && ip.wf() && !crate::vm_manager::state::ip_claimed(state.vms@, ip.addr)
                    && bridge.addr < ip.addr <= net_end(bridge),
                None => r matches Err(crate::vm_manager::vmm::Error::NoIPAvailable),
            }
        }),
{
    let inet = match parse_inet(state.config.api.network.bridge_address.as_str()) {
        Some(inet) => inet,
        None => {
            proof {
                assert(false);
            }
            IpNet { addr: 0, prefix: 0 }
        },
    };
    proof {
        lemma_net_range(inet);
        lemma_pow2_pos((32 - inet.prefix) as nat);
    }
    let block = pow2_u64(32 - inet.prefix);
    let a = inet.addr as u64;
    let base = a - a % block;
    let end = base + block - 1;
    let mut c: u64 = a + 1;
    while c <= end
        invariant
            a + 1 <= c <= end + 1,
            a == inet.addr,
            inet == spec_parse_inet(state.config.api.network.bridge_address@).unwrap(),
            spec_parse_inet(state.config.api.network.bridge_address@) is Some,
            inet.wf(),
            end == net_end(inet),
            end < 0x1_0000_0000,
            first_free_ip(state.vms@, a + 1, end as int) == first_free_ip(
                state.vms@,
                c as int,
                end as int,
            ),
        decreases end + 1 - c,
    {
        if !ip_is_claimed(&state.vms, c as u32) {
            proof {
                assert(first_free_ip(state.vms@, c as int, end as int) == Some(c as u32));
            }
            return Ok(IpNet { addr: c as u32, prefix: inet.prefix });
        }
        proof {
            lemma_first_free_skip(state.vms@, c as int, end as int);
        }
        c = c + 1;
    }
    Err(crate::vm_manager::vmm::Error::NoIPAvailable)
}

/// The network boot argument appended for a guest: its address, the gateway
/// exactly as the configuration spells it, and the subnet's netmask, in the
/// literal `ip=` form the guest kernel reads.
pub open spec fn network_boot_arg(guest: u32, gateway: Seq<char>, mask: u32) -> Seq<char> {
    " ip="@ + ip_str(guest) + "::"@ + gateway + ":"@ + ip_str(mask) + "::eth0:on"@
}

/// Appends the network boot argument for the record's assigned address to
/// its kernel boot arguments: guest address, gateway (the address part of
/// the configured bridge address), netmask, on `eth0`.
pub fn add_boot_option(vm: &mut crate::vm_manager::state::VMState, bridge_address: &str)
    requires
        old(vm).ip is Some,
        old(vm).ip.unwrap().wf(),
        spec_parse_inet(bridge_address@) is Some,
    ensures
        final(vm).configuration.boot_args@ == old(vm).configuration.boot_args@ + network_boot_arg(
            old(vm).ip.unwrap().addr,
            gateway_part(bridge_address@),
            mask_of(old(vm).ip.unwrap().prefix as nat) as u32,
        ),
        final(vm).configuration.vm_id == old(vm).configuration.vm_id,
        final(vm).configuration.kernel_image_path == old(vm).configuration.kernel_image_path,
        final(vm).configuration.initrd_path == old(vm).configuration.initrd_path,
        final(vm).configuration.drives == old(vm).configuration.drives,
        final(vm).configuration.host_dev_name == old(vm).configuration.host_dev_name,
        final(vm).configuration.iface_id == old(vm).configuration.iface_id,
        final(vm).configuration.chroot == old(vm).configuration.chroot,
        final(vm).configuration.exec_binary == old(vm).configuration.exec_binary,
        final(vm).status == old(vm).status,
        final(vm).ip == old(vm).ip,
        final(vm).port_mapping == old(vm).port_mapping,
{
    let ip = vm.ip.unwrap();
    vm.configuration.boot_args.append(" ip=");
    push_ip(&mut vm.configuration.boot_args, ip.addr);
    vm.configuration.boot_args.append("::");
    let gw = gateway_string(bridge_address);
    vm.configuration.boot_args.append(gw.as_str());
    vm.configuration.boot_args.append(":");
    let m = ip.mask();
    push_ip(&mut vm.configuration.boot_args, m);
    vm.configuration.boot_args.append("::eth0:on");
    proof {
        assert(vm.configuration.boot_args@ =~= old(vm).configuration.boot_args@
            + network_boot_arg(
            old(vm).ip.unwrap().addr,
            gateway_part(bridge_address@),
            mask_of(old(vm).ip.unwrap().prefix as nat) as u32,
        ));
    }
}

/// One packet-filter rule: the table and chain it goes into, and the rule
/// text itself.
#[derive(Debug)]
pub struct IptablesRule {
    pub table: String,
    pub chain: String,
    pub rule: String,
}

impl View for IptablesRule {
    type V = (Seq<char>, Seq<char>, Seq<char>);

    open spec fn view(&self) -> (Seq<char>, Seq<char>, Seq<char>) {
        (self.table@, self.chain@, self.rule@)
    }
}

/// The destination-NAT rule for one mapping entry: host port to guest
/// address and port.
pub open spec fn dnat_rule_str(a: u32, host: u16, guest: u16) -> Seq<char> {
    "-p tcp --dport "@ + dec_str(host as nat) + " -j DNAT --to-destination "@ + ip_str(a) + seq![
        ':',
    ] + dec_str(guest as nat)
}

/// The source-masquerade rule for one mapping entry.
pub open spec fn masquerade_rule_str(a: u32, guest: u16) -> Seq<char> {
    "-p tcp -d "@ + ip_str(a) + " --dport "@ + dec_str(guest as nat) + " -j MASQUERADE"@
}

/// The stateful forward-accept rule for one mapping entry.
pub open spec fn forward_rule_str(a: u32, guest: u16) -> Seq<char> {
    "-p tcp -d "@ + ip_str(a) + " --dport "@ + dec_str(guest as nat)
        + " -m state --state NEW,ESTABLISHED,RELATED -j ACCEPT"@
}

/// Rule `i` of the rules a mapping asks for: three rules per entry, in entry
/// order — destination NAT, masquerade, forward accept.
pub open spec fn port_rule_at(a: u32, mapping: Seq<(u16, u16)>, i: int) -> (
    Seq<char>,
    Seq<char>,
    Seq<char>,
)
    recommends
        0 <= i < 3 * mapping.len(),
{
    let p = mapping[i / 3];
    if i % 3 == 0 {
        ("nat"@, "PREROUTING"@, dnat_rule_str(a, p.0, p.1))
    } else if i % 3 == 1 {
        ("nat"@, "POSTROUTING"@, masquerade_rule_str(a, p.1))
    } else {
        ("filter"@, "FORWARD"@, forward_rule_str(a, p.1))
    }
}

fn dnat_rule(a: u32, host: u16, guest: u16) -> (r: String)
    ensures
        r@ == dnat_rule_str(a, host, guest),
{
    let mut s = String::from_str("-p tcp --dport ");
    push_dec(&mut s, host as u64);
    s.append(" -j DNAT --to-destination ");
    push_ip(&mut s, a);
    proof {
        reveal_strlit(":");
        assert(":"@ =~= seq![':']);
    }
    s.append(":");
    push_dec(&mut s, guest as u64);
    proof {
        assert(s@ =~= dnat_rule_str(a, host, guest));
    }
    s
}

fn masquerade_rule(a: u32, guest: u16) -> (r: String)
    ensures
        r@ == masquerade_rule_str(a, guest),
{
    let mut s = String::from_str("-p tcp -d ");
    push_ip(&mut s, a);
    s.append(" --dport ");
    push_dec(&mut s, guest as u64);
    s.append(" -j MASQUERADE");
    proof {
        assert(s@ =~= masquerade_rule_str(a, guest));
    }
    s
}

fn forward_rule(a: u32, guest: u16) -> (r: String)
    ensures
        r@ == forward_rule_str(a, guest),
{
    let mut s = String::from_str("-p tcp -d ");
    push_ip(&mut s, a);
    s.append(" --dport ");
    push_dec(&mut s, guest as u64);
    s.append(" -m state --state NEW,ESTABLISHED,RELATED -j ACCEPT");
    proof {
        assert(s@ =~= forward_rule_str(a, guest));
    }
    s
}

/// The packet-filter rules a port mapping asks for at the guest address
/// `ip`: per entry, a destination NAT of the host port, a masquerade of the
/// return path, and a forward accept. The start sequence installs exactly
/// these; the stop sequence removes them with matching parameters.
pub fn port_mapping_rules(ip: IpNet, mapping: &Vec<(u16, u16)>) -> (r: Vec<IptablesRule>)
    ensures
        r@.len() == 3 * mapping@.len(),
        forall|i: int| 0 <= i < r@.len() ==> (#[trigger] r@[i])@ == port_rule_at(ip.addr, mapping@, i),
{
    let mut r: Vec<IptablesRule> = Vec::new();
    let mut j: usize = 0;
    while j < mapping.len()
        invariant
            j <= mapping@.len(),
            r@.len() == 3 * j,
            forall|i: int|
                0 <= i < r@.len() ==> (#[trigger] r@[i])@ == port_rule_at(ip.addr, mapping@, i),
        decreases mapping@.len() - j,
    {
        let (host, guest) = mapping[j];
        r.push(
            IptablesRule {
                table: String::from_str("nat"),
                chain: String::from_str("PREROUTING"),
                rule: dnat_rule(ip.addr, host, guest),
            },
        );
        r.push(
            IptablesRule {
                table: String::from_str("nat"),
                chain: String::from_str("POSTROUTING"),
                rule: masquerade_rule(ip.addr, guest),
            },
        );
        r.push(
            IptablesRule {
                table: String::from_str("filter"),
                chain: String::from_str("FORWARD"),
                rule: forward_rule(ip.addr, guest),
            },
        );
        proof {
            assert(mapping@[j as int] == (host, guest));
            assert(forall|i: int|
                3 * j <= i < 3 * j + 3 ==> i / 3 == j as int && (#[trigger] (i % 3)) == i - 3 * (
                j as int));
        }
        j = j + 1;
    }
    r
}

/// The address part of a bridge-address string: everything before the first
/// slash. This is the gateway exactly as the configuration file spells it.
pub fn gateway_string(s: &str) -> (r: String)
    requires
        spec_parse_inet(s@) is Some,
    ensures
        r@ == gateway_part(s@),
{
    let n = s.unicode_len();
    let k = match find_char_exec(s, n, '/', 0) {
        Some(k) => k,
        None => {
            proof {
                assert(false);
            }
            0
        },
    };
    let part = s.substring_char(0, k);
    String::from_str(part)
}

} // verus!
