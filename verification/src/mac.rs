//! Ethernet MAC addresses as a six-byte value, with the 48-bit integer
//! form used by the rewrite recipes.

use vstd::prelude::*;

verus! {

/// The 48-bit integer packing of six address bytes, most significant
/// byte first.
pub open spec fn mac_bytes_to_u64(b: [u8; 6]) -> u64 {
    ((b[0] as u64) * 0x100_0000_0000
        + (b[1] as u64) * 0x1_0000_0000
        + (b[2] as u64) * 0x100_0000
        + (b[3] as u64) * 0x1_0000
        + (b[4] as u64) * 0x100
        + (b[5] as u64)) as u64
}

/// The six address bytes drawn from the low 48 bits of a u64, most
/// significant byte first.
pub open spec fn mac_u64_to_bytes(val: u64) -> [u8; 6] {
    [
        ((val / 0x100_0000_0000) % 0x100) as u8,
        ((val / 0x1_0000_0000) % 0x100) as u8,
        ((val / 0x100_0000) % 0x100) as u8,
        ((val / 0x1_0000) % 0x100) as u8,
        ((val / 0x100) % 0x100) as u8,
        (val % 0x100) as u8,
    ]
}

#[derive(Debug, Clone, Copy, PartialEq, Eq, Hash)]
pub struct MacAddr {
    addr: [u8; 6],
}

impl MacAddr {
    /// The bytes a MacAddr holds.
    pub closed spec fn spec_bytes(&self) -> [u8; 6] {
        self.addr
    }

    pub fn new(addr: [u8; 6]) -> (r: Self)
        ensures
            r.spec_bytes() == addr,
    {
        Self { addr }
    }

    pub fn from_u64(val: u64) -> (r: Self)
        ensures
            r.spec_bytes() == mac_u64_to_bytes(val),
    {
        Self {
            addr: [
                ((val / 0x100_0000_0000) % 0x100) as u8,
                ((val / 0x1_0000_0000) % 0x100) as u8,
                ((val / 0x100_0000) % 0x100) as u8,
                ((val / 0x1_0000) % 0x100) as u8,
                ((val / 0x100) % 0x100) as u8,
                (val % 0x100) as u8,
            ],
        }
    }

    pub fn to_u64(self) -> (r: u64)
        ensures
            r == mac_bytes_to_u64(self.spec_bytes()),
    {
        (self.addr[0] as u64) * 0x100_0000_0000
            + (self.addr[1] as u64) * 0x1_0000_0000
            + (self.addr[2] as u64) * 0x100_0000
            + (self.addr[3] as u64) * 0x1_0000
            + (self.addr[4] as u64) * 0x100
            + (self.addr[5] as u64)
    }

    pub fn as_bytes(&self) -> (r: [u8; 6])
        ensures
            r == self.spec_bytes(),
    {
        self.addr
    }
}

/// Packing six bytes and unpacking them again returns the bytes.
pub proof fn lemma_mac_roundtrip_bytes(b: [u8; 6])
    ensures
        mac_u64_to_bytes(mac_bytes_to_u64(b)) == b,
{
    let b0 = b[0] as u64;
    let b1 = b[1] as u64;
    let b2 = b[2] as u64;
    let b3 = b[3] as u64;
    let b4 = b[4] as u64;
    let b5 = b[5] as u64;
    let v = mac_bytes_to_u64(b);
    assert(v == b0 * 0x100_0000_0000 + b1 * 0x1_0000_0000 + b2 * 0x100_0000
        + b3 * 0x1_0000 + b4 * 0x100 + b5);
    assert((v / 0x100_0000_0000) % 0x100 == b0
        && (v / 0x1_0000_0000) % 0x100 == b1
        && (v / 0x100_0000) % 0x100 == b2
        && (v / 0x1_0000) % 0x100 == b3
        && (v / 0x100) % 0x100 == b4
        && v % 0x100 == b5) by (bit_vector)
        requires
            v == b0 * 0x100_0000_0000 + b1 * 0x1_0000_0000 + b2 * 0x100_0000
                + b3 * 0x1_0000 + b4 * 0x100 + b5,
            b0 < 0x100, b1 < 0x100, b2 < 0x100, b3 < 0x100, b4 < 0x100, b5 < 0x100,
    ;
    let u = mac_u64_to_bytes(v);
    assert(u =~= b);
}

/// Unpacking a 48-bit value and packing it again returns the value;
/// bits above the low 48 are dropped.
pub proof fn lemma_mac_roundtrip_u64(val: u64)
    ensures
        mac_bytes_to_u64(mac_u64_to_bytes(val)) == val % 0x1_0000_0000_0000,
{
    assert(((val / 0x100_0000_0000) % 0x100) * 0x100_0000_0000
        + ((val / 0x1_0000_0000) % 0x100) * 0x1_0000_0000
        + ((val / 0x100_0000) % 0x100) * 0x100_0000
        + ((val / 0x1_0000) % 0x100) * 0x1_0000
        + ((val / 0x100) % 0x100) * 0x100
        + (val % 0x100) == val % 0x1_0000_0000_0000) by (bit_vector);
}

impl From<[u8; 6]> for MacAddr {
    fn from(addr: [u8; 6]) -> (r: Self) {
        Self::new(addr)
    }
}

impl vstd::std_specs::convert::FromSpecImpl<[u8; 6]> for MacAddr {
    open spec fn obeys_from_spec() -> bool {
        true
    }

    closed spec fn from_spec(addr: [u8; 6]) -> Self {
        MacAddr { addr }
    }
}

impl From<MacAddr> for [u8; 6] {
    fn from(mac: MacAddr) -> (r: Self) {
        mac.as_bytes()
    }
}

impl vstd::std_specs::convert::FromSpecImpl<MacAddr> for [u8; 6] {
    open spec fn obeys_from_spec() -> bool {
        true
    }

    open spec fn from_spec(mac: MacAddr) -> Self {
        mac.spec_bytes()
    }
}

impl From<MacAddr> for u64 {
    fn from(mac: MacAddr) -> (r: Self) {
        mac.to_u64()
    }
}

impl vstd::std_specs::convert::FromSpecImpl<MacAddr> for u64 {
    open spec fn obeys_from_spec() -> bool {
        true
    }

    open spec fn from_spec(mac: MacAddr) -> Self {
        mac_bytes_to_u64(mac.spec_bytes())
    }
}

impl From<u64> for MacAddr {
    fn from(val: u64) -> (r: Self) {
        Self::from_u64(val)
    }
}

impl vstd::std_specs::convert::FromSpecImpl<u64> for MacAddr {
    open spec fn obeys_from_spec() -> bool {
        true
    }

    closed spec fn from_spec(val: u64) -> Self {
        MacAddr { addr: mac_u64_to_bytes(val) }
    }
}

} // verus!
