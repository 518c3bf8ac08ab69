//! Shared record layouts consumed by both the per-packet fast path and
//! the maintenance loop: port mappings, backends, flows and flow keys.

use vstd::prelude::*;

verus! {

/// Generic port mapping representing a port on the local machine and a
/// port on some remote host.
#[derive(Debug, Clone, Copy, PartialEq, Eq, Structural)]
pub struct PortMapping {
    /// Port on this local machine, e.g. the lb listen port or the
    /// source port we have assigned.
    pub local_port: u16,
    /// Port on a remote host, e.g. a backend node service port or a
    /// src port from a client connection.
    pub remote_port: u16,
}

/// A selectable destination with pre-resolved egress route info and
/// aggregate counters. `ip == 0` marks an empty slot.
#[derive(Debug, Clone, Copy, PartialEq, Eq)]
pub struct Backend {
    /// IP address of the backend packed into a u128, which can hold
    /// ipv4 (low 32 bits) or ipv6.
    pub ip: u128,
    pub src_iface_ip: u128,
    /// Aggregate count of bytes transferred across live connections.
    pub bytes_transfer: u64,
    pub src_iface_mac: [u8; 6],
    pub next_hop_mac: [u8; 6],
    pub src_iface_ifindex: u16,
    /// Aggregate count of live connections.
    pub conns: u16,
    /// The ip protocol version of `ip`.
    pub ip_ver: crate::config::IpVersion,
}

impl Backend {
    /// An empty slot: the sentinel every field of which is zero.
    pub fn empty_slot() -> (r: Backend)
        ensures
            r.ip == 0,
            r == (Backend {
                ip: 0,
                src_iface_ip: 0,
                bytes_transfer: 0,
                src_iface_mac: [0u8, 0u8, 0u8, 0u8, 0u8, 0u8],
                next_hop_mac: [0u8, 0u8, 0u8, 0u8, 0u8, 0u8],
                src_iface_ifindex: 0,
                conns: 0,
                ip_ver: crate::config::IpVersion::Ipv4,
            }),
    {
        Backend {
            ip: 0,
            src_iface_ip: 0,
            bytes_transfer: 0,
            src_iface_mac: [0u8, 0u8, 0u8, 0u8, 0u8, 0u8],
            next_hop_mac: [0u8, 0u8, 0u8, 0u8, 0u8, 0u8],
            src_iface_ifindex: 0,
            conns: 0,
            ip_ver: crate::config::IpVersion::Ipv4,
        }
    }
}

/// Denotes the directional flow of a packet.
#[derive(Debug, Clone, Copy, PartialEq, Eq, Structural)]
pub enum FlowDirection {
    /// Flow is toward the client; the incoming data is from a backend.
    ToClient,
    /// Flow is toward a backend server; the incoming data is from a
    /// client.
    ToServer,
}

/// A directional connection entry: the verbatim rewrite recipe to
/// reroute a packet, plus liveness and closure bookkeeping.
#[derive(Debug, Clone, Copy, PartialEq, Eq)]
pub struct Flow {
    /// Direction of this flow, which denotes the destination of the
    /// packet being rewritten.
    pub direction: FlowDirection,
    /// The original client IP of the external request associated with
    /// this flow.
    pub client_ip: u128,
    /// The backend IP of the node associated with this flow.
    pub backend_ip: u128,
    /// The source IP value of the out iface used to reach `dst_ip`.
    pub src_ip: u128,
    /// The source port value: the lb ephemeral port when ToServer, the
    /// original service port when ToClient.
    pub src_port: u16,
    /// The dest port value: the mapped backend port when ToServer, the
    /// client's original src port when ToClient.
    pub dst_port: u16,
    /// The destination IP value of the packet after rewrite.
    pub dst_ip: u128,
    /// The destination MAC address of the packet after rewrite.
    pub dst_mac: [u8; 6],
    /// The interface index the rewritten packet must leave on.
    pub src_iface_idx: u16,
    /// The MAC address of the interface the packet leaves on.
    pub src_mac: [u8; 6],
    /// Counter of total bytes transferred across this flow.
    pub bytes_transfer: u64,
    /// Counter of total packets transferred across this flow.
    pub packets_transfer: u64,
    /// Monotonic timestamp for when this flow was created.
    pub created_at_ns: u64,
    /// Monotonic timestamp of the last packet seen on this flow.
    pub last_seen_ns: u64,
    /// Set when a FIN was seen travelling in this flow's direction.
    pub fin: bool,
    /// Set on the counter flow of the side that completed the FIN
    /// handshake.
    pub fin_is_src: bool,
    /// Monotonic timestamp for when both sides had sent a FIN; zero
    /// while the connection is open.
    pub fin_both_ns: u64,
    /// Monotonic timestamp for when a RST was seen; zero if none.
    pub rst_ns: u64,
    /// Set on the flow whose direction carried the RST.
    pub rst_is_src: bool,
    /// Hash of the sibling (opposite-direction) flow's key, so one
    /// side's FIN/RST can mark the other.
    pub counter_flow_key_hash: u64,
}

/// The tuple a flow map key is derived from.
#[derive(Debug, Clone, Copy, PartialEq, Eq, Hash)]
pub struct FlowKey {
    pub ip: u128,
    pub port: u16,
    pub _pad: [u8; 6],
}

/// Seed of the 64-bit FNV-1a fingerprint.
pub const FNV_OFFSET: u64 = 0xcbf29ce484222325;

/// Multiplier of the 64-bit FNV-1a fingerprint.
pub const FNV_PRIME: u64 = 0x100000001b3;

/// One FNV-1a round: fold one byte into the running hash.
pub open spec fn fnv_step(h: u64, b: u8) -> u64 {
    (h ^ (b as u64)).wrapping_mul(FNV_PRIME)
}

/// Fold the low `n` little-endian bytes of `ip` into the running hash.
pub open spec fn fnv_fold_ip(h: u64, ip: u128, n: nat) -> u64
    decreases n,
{
    if n == 0 {
        h
    } else {
        fnv_fold_ip(fnv_step(h, (ip % 0x100) as u8), ip / 0x100, (n - 1) as nat)
    }
}

/// The 64-bit fingerprint of a flow key: FNV-1a over the sixteen
/// little-endian ip bytes followed by the two little-endian port bytes.
pub open spec fn flow_key_hash(ip: u128, port: u16) -> u64 {
    fnv_step(fnv_step(fnv_fold_ip(FNV_OFFSET, ip, 16), (port % 0x100) as u8), (port / 0x100) as u8)
}

impl FlowKey {
    pub fn new(ip: u128, port: u16) -> (r: Self)
        ensures
            r.ip == ip,
            r.port == port,
            r._pad == [0u8, 0u8, 0u8, 0u8, 0u8, 0u8],
    {
        Self { ip, port, _pad: [0u8, 0u8, 0u8, 0u8, 0u8, 0u8] }
    }

    /// The 64-bit map key this flow key hashes to. Collisions at the
    /// hash level are accepted; the map does not store the full key.
    pub fn hash_key(&self) -> (r: u64)
        ensures
            r == flow_key_hash(self.ip, self.port),
    {
        let mut h: u64 = FNV_OFFSET;
        let mut cur: u128 = self.ip;
        let mut i: usize = 0;
        while i < 16
            invariant
                i <= 16,
                fnv_fold_ip(h, cur, (16 - i) as nat) == fnv_fold_ip(FNV_OFFSET, self.ip, 16),
            decreases 16 - i,
        {
            let b: u8 = (cur % 0x100) as u8;
            h = (h ^ (b as u64)).wrapping_mul(FNV_PRIME);
            cur = cur / 0x100;
            i = i + 1;
        }
        h = (h ^ ((self.port % 0x100) as u64)).wrapping_mul(FNV_PRIME);
        h = (h ^ ((self.port / 0x100) as u64)).wrapping_mul(FNV_PRIME);
        h
    }
}

} // verus!
