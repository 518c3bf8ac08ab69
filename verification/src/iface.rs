//! Listen-interface selection logic: picking the address that shares a
//! subnet with the default gateway, and the forwarding-flag check the
//! balancer refuses to start without.

use vstd::prelude::*;

verus! {

/// Two IPv4 addresses share a subnet of the given prefix length: their
/// upper `prefix_len` bits agree.
pub open spec fn same_subnet_spec(addr: u32, prefix_len: u8, gw: u32) -> bool {
    if prefix_len == 0 {
        true
    } else if prefix_len >= 32 {
        addr == gw
    } else {
        addr >> ((32 - prefix_len) as u32) == gw >> ((32 - prefix_len) as u32)
    }
}

pub fn same_subnet(addr: u32, prefix_len: u8, gw: u32) -> (r: bool)
    ensures
        r == same_subnet_spec(addr, prefix_len, gw),
{
    if prefix_len == 0 {
        true
    } else if prefix_len >= 32 {
        addr == gw
    } else {
        addr >> ((32 - prefix_len) as u32) == gw >> ((32 - prefix_len) as u32)
    }
}

/// The first address, scanning from `i`, whose network prefix contains
/// the gateway.
pub open spec fn listen_ip_at(addrs: Seq<(u32, u8)>, gw: u32, i: int) -> Option<u32>
    decreases addrs.len() - i,
{
    if i < 0 || i >= addrs.len() {
        None
    } else if same_subnet_spec(addrs[i].0, addrs[i].1, gw) {
        Some(addrs[i].0)
    } else {
        listen_ip_at(addrs, gw, i + 1)
    }
}

/// Detect the listen address among an interface's `(address,
/// prefix_len)` pairs: the first one on the same subnet as the default
/// gateway.
pub fn find_listen_ip(addrs: &Vec<(u32, u8)>, gw: u32) -> (r: Option<u32>)
    ensures
        r == listen_ip_at(addrs@, gw, 0),
{
    let mut i: usize = 0;
    while i < addrs.len()
        invariant
            i <= addrs@.len(),
            listen_ip_at(addrs@, gw, i as int) == listen_ip_at(addrs@, gw, 0),
        decreases addrs@.len() - i,
    {
        let (addr, plen) = addrs[i];
        if same_subnet(addr, plen, gw) {
            return Some(addr);
        }
        i = i + 1;
    }
    None
}

/// The kernel's forwarding flag value allows us to run unless it reads
/// exactly "0".
pub fn forwarding_enabled(value: &Vec<u8>) -> (r: bool)
    ensures
        r <==> value@ != seq![48u8],
{
    if value.len() != 1 {
        proof {
            assert(value@ != seq![48u8]);
        }
        return true;
    }
    let is_zero = value[0] == 48;
    proof {
        if value@[0] == 48 {
            assert(value@ =~= seq![48u8]);
        }
    }
    !is_zero
}

} // verus!
