//! The per-packet fast path: classification against the configured
//! port map, the TCP connection state machine (new flows on SYN,
//! existing-flow updates, FIN/RST closure marking), and the top-level
//! packet handler that ties decoding, rewriting and redirecting
//! together.

use crate::balancing::{rr_choice, select_backend};
use crate::config::{EbpfConfig, Proto, Strategy};
use crate::consts::MAX_ACTIVE_FLOWS;
use crate::errors::XlbErr;
use crate::flow_table::{BackendTable, FlowTable};
use crate::mac::MacAddr;
use crate::packet::{Packet, ProtoHeader};
use crate::types::{flow_key_hash, Backend, Flow, FlowDirection, FlowKey, PortMapping};
use vstd::prelude::*;

verus! {

/// The egress interface a rewritten packet leaves on.
#[derive(Debug, Clone, Copy, PartialEq, Eq)]
pub struct Iface {
    pub idx: u16,
    pub mac: [u8; 6],
    pub src_mac: [u8; 6],
    pub src_ip: u128,
}

/// What the fast path decides for one packet.
#[derive(Debug, Clone, Copy, PartialEq, Eq)]
pub enum PacketEvent {
    /// Not ours: hand the packet on unchanged.
    Pass,
    /// The packet was rewritten in place (into a RST) and goes back
    /// out the interface it came from.
    Return,
    /// The packet was rewritten and is redirected to this interface.
    Forward(Iface),
}

/// The rewrite recipe resolved for one packet.
#[derive(Debug, Clone, Copy, PartialEq, Eq)]
pub struct PacketFlow {
    pub iface: Iface,
    pub src_mac: [u8; 6],
    pub dst_mac: [u8; 6],
    pub src_ip: u128,
    pub dst_ip: u128,
    pub src_port: u16,
    pub dst_port: u16,
}

/// What the TCP state machine asks the handler to do.
#[derive(Debug, Clone, Copy, PartialEq, Eq)]
pub enum TcpVerdict {
    /// Rewrite with this recipe and redirect.
    Forwarded(PacketFlow),
    /// The packet was turned into a RST for its sender; send it back.
    RstReturn,
    /// Nothing to do for this packet.
    Ignore,
}

/// The first port-map slot, scanning from `i`, that matches either the
/// packet's destination port (ToServer) or its source port (ToClient).
pub open spec fn dir_port_map_at(
    config: EbpfConfig,
    src_port: u16,
    dst_port: u16,
    i: int,
) -> Option<(FlowDirection, PortMapping)>
    decreases 8 - i,
{
    if i < 0 || i >= 8 {
        None
    } else {
        let pm = config.port_mappings[i];
        if dst_port == pm.local_port {
            Some((FlowDirection::ToServer, pm))
        } else if src_port == pm.remote_port {
            Some((FlowDirection::ToClient, pm))
        } else {
            dir_port_map_at(config, src_port, dst_port, i + 1)
        }
    }
}

/// The classification decision: whether this packet concerns us and in
/// which direction it travels.
pub open spec fn should_process_spec(config: EbpfConfig, p: Packet) -> Option<(
    FlowDirection,
    PortMapping,
)> {
    if (match p.ip {
        crate::packet::IpHeader::Ipv4(_) => config.ip_ver != crate::config::IpVersion::Ipv4,
        crate::packet::IpHeader::Ipv6(_) => config.ip_ver != crate::config::IpVersion::Ipv6,
    }) || (match p.l4 {
        ProtoHeader::Tcp(_) => config.proto != Proto::Tcp,
        ProtoHeader::Udp(_) => config.proto != Proto::Udp,
    }) {
        None
    } else {
        match dir_port_map_at(config, p.spec_src_port(), p.spec_dst_port(), 0) {
            None => None,
            Some((d, pm)) => {
                if d == FlowDirection::ToServer && p.spec_dst_ip() != config.ip_addr {
                    None
                } else {
                    Some((d, pm))
                }
            },
        }
    }
}

/// Checks whether a packet is of interest to this instance: it must
/// match the configured IP version, protocol and one port mapping, and
/// inbound (ToServer) traffic must actually be addressed to the listen
/// IP — otherwise it belongs to some other service on the host.
pub fn should_process_packet(config: &EbpfConfig, packet: &Packet) -> (r: Option<(
    FlowDirection,
    PortMapping,
)>)
    ensures
        r == should_process_spec(*config, *packet),
{
    let ver_match = match (packet.ip_version(), config.ip_ver) {
        (crate::config::IpVersion::Ipv4, crate::config::IpVersion::Ipv4) => true,
        (crate::config::IpVersion::Ipv6, crate::config::IpVersion::Ipv6) => true,
        _ => false,
    };
    let proto_match = match (packet.proto(), config.proto) {
        (Proto::Tcp, Proto::Tcp) => true,
        (Proto::Udp, Proto::Udp) => true,
        _ => false,
    };
    if !ver_match || !proto_match {
        return None;
    }
    let dpm = get_direction_port_map(config, packet);
    match dpm {
        None => None,
        Some((d, pm)) => {
            if d == FlowDirection::ToServer && packet.dst_ip() != config.ip_addr {
                None
            } else {
                Some((d, pm))
            }
        },
    }
}

/// Walk the 8-slot port map in configuration order; the first match
/// wins, which makes configuration order the operator's tie-break.
fn get_direction_port_map(config: &EbpfConfig, packet: &Packet) -> (r: Option<(
    FlowDirection,
    PortMapping,
)>)
    ensures
        r == dir_port_map_at(*config, packet.spec_src_port(), packet.spec_dst_port(), 0),
{
    let src_port = packet.src_port();
    let dst_port = packet.dst_port();
    let mut i: usize = 0;
    while i < 8
        invariant
            i <= 8,
            src_port == packet.spec_src_port(),
            dst_port == packet.spec_dst_port(),
            dir_port_map_at(*config, src_port, dst_port, i as int) == dir_port_map_at(
                *config,
                src_port,
                dst_port,
                0,
            ),
        decreases 8 - i,
    {
        let pm = config.port_mappings[i];
        if dst_port == pm.local_port {
            return Some((FlowDirection::ToServer, pm));
        }
        if src_port == pm.remote_port {
            return Some((FlowDirection::ToClient, pm));
        }
        i = i + 1;
    }
    None
}

/// The flow key of a packet in its original (pre-rewrite) state:
/// `(client_ip, client_src_port)` seen from the client, or
/// `(backend_ip, lb_ephemeral_port)` seen from the backend.
pub open spec fn flow_key_spec(p: Packet, direction: FlowDirection) -> (u128, u16) {
    match direction {
        FlowDirection::ToServer => (p.spec_src_ip(), p.spec_src_port()),
        FlowDirection::ToClient => (p.spec_src_ip(), p.spec_dst_port()),
    }
}

pub fn server_flow_key(client_ip: u128, packet_src_port: u16) -> (r: FlowKey)
    ensures
        r.ip == client_ip,
        r.port == packet_src_port,
{
    FlowKey::new(client_ip, packet_src_port)
}

pub fn client_flow_key(backend_ip: u128, ephemeral_port: u16) -> (r: FlowKey)
    ensures
        r.ip == backend_ip,
        r.port == ephemeral_port,
{
    FlowKey::new(backend_ip, ephemeral_port)
}

/// Builds the flow key a packet is tracked under for the given
/// direction.
pub fn get_flow_key(packet: &Packet, direction: &FlowDirection) -> (r: FlowKey)
    ensures
        r.ip == flow_key_spec(*packet, *direction).0,
        r.port == flow_key_spec(*packet, *direction).1,
{
    match direction {
        FlowDirection::ToServer => server_flow_key(packet.src_ip(), packet.src_port()),
        FlowDirection::ToClient => client_flow_key(packet.src_ip(), packet.dst_port()),
    }
}

/// The egress interface a flow's recipe names.
pub fn flow_to_iface(flow: &Flow) -> (r: Iface)
    ensures
        r == (Iface {
            idx: flow.src_iface_idx,
            mac: flow.dst_mac,
            src_mac: flow.src_mac,
            src_ip: flow.src_ip,
        }),
{
    Iface { idx: flow.src_iface_idx, mac: flow.dst_mac, src_mac: flow.src_mac, src_ip: flow.src_ip }
}

/// The ephemeral port a raw random draw maps to: uniformly in
/// `[5000, 54999]`.
pub open spec fn eph_port_of(draw: u32) -> u16 {
    ((draw % 50000) + 5000) as u16
}

/// The first of the five draws whose `(backend_ip, port)` key is not
/// yet in the flow table, if any.
pub open spec fn eph_candidate_at(
    backend_ip: u128,
    flows: Map<u64, Flow>,
    draws: Seq<u32>,
    i: int,
) -> Option<int>
    decreases 5 - i,
{
    if i < 0 || i >= 5 {
        None
    } else if !flows.contains_key(flow_key_hash(backend_ip, eph_port_of(draws[i]))) {
        Some(i)
    } else {
        eph_candidate_at(backend_ip, flows, draws, i + 1)
    }
}

/// Try up to five random draws for a free ephemeral port between us
/// and the backend. On success the returned `(backend_ip, port)` key
/// is absent from the flow table — the key the return-path flow will
/// be inserted under.
pub fn find_ephemeral_port(backend: &Backend, flows: &FlowTable, draws: &[u32; 5]) -> (r: Result<
    FlowKey,
    XlbErr,
>)
    requires
        flows.wf(),
    ensures
        match eph_candidate_at(backend.ip, flows@, draws@, 0) {
            Some(i) => ({
                &&& r matches Ok(k)
                &&& k.ip == backend.ip
                &&& k.port == eph_port_of(draws@[i])
                &&& 5000 <= k.port < 55000
                &&& !flows@.contains_key(flow_key_hash(k.ip, k.port))
            }),
            None => r == Result::<FlowKey, XlbErr>::Err(XlbErr::ErrNoEphemeralPorts),
        },
{
    let mut i: usize = 0;
    while i < 5
        invariant
            flows.wf(),
            i <= 5,
            eph_candidate_at(backend.ip, flows@, draws@, i as int) == eph_candidate_at(
                backend.ip,
                flows@,
                draws@,
                0,
            ),
        decreases 5 - i,
    {
        let src_port: u16 = ((draws[i] % 50000) + 5000) as u16;
        let key = client_flow_key(backend.ip, src_port);
        let key_hash = key.hash_key();
        if flows.lookup(key_hash).is_none() {
            proof {
                assert(eph_candidate_at(backend.ip, flows@, draws@, i as int) == Some(i as int));
            }
            return Ok(key);
        }
        i = i + 1;
    }
    Err(XlbErr::ErrNoEphemeralPorts)
}

/// The ToServer flow recipe built for an accepted SYN: source is the
/// egress interface with the chosen ephemeral port, destination the
/// selected backend on the mapped service port.
pub open spec fn server_flow_spec(
    p: Packet,
    backend: Backend,
    dest_map_port: u16,
    eph_port: u16,
    now_ns: u64,
) -> Flow {
    Flow {
        direction: FlowDirection::ToServer,
        client_ip: p.spec_src_ip(),
        backend_ip: backend.ip,
        src_ip: backend.src_iface_ip,
        src_port: eph_port,
        dst_port: dest_map_port,
        dst_ip: backend.ip,
        dst_mac: backend.next_hop_mac,
        src_iface_idx: backend.src_iface_ifindex,
        src_mac: backend.src_iface_mac,
        bytes_transfer: p.frame_len as u64,
        packets_transfer: 1,
        created_at_ns: now_ns,
        last_seen_ns: now_ns,
        fin: false,
        fin_is_src: false,
        fin_both_ns: 0,
        rst_ns: 0,
        rst_is_src: false,
        counter_flow_key_hash: flow_key_hash(backend.ip, eph_port),
    }
}

/// The ToClient flow recipe built for an accepted SYN: source is the
/// service address the client dialled, destination the original
/// client, ethernet a swap of the original frame's addresses.
pub open spec fn client_flow_spec(
    p: Packet,
    backend: Backend,
    counter_flow_key_hash: u64,
    now_ns: u64,
) -> Flow {
    Flow {
        direction: FlowDirection::ToClient,
        client_ip: p.spec_src_ip(),
        backend_ip: backend.ip,
        src_ip: p.spec_dst_ip(),
        src_port: p.spec_dst_port(),
        dst_port: p.spec_src_port(),
        dst_ip: p.spec_src_ip(),
        dst_mac: p.eth.src_mac,
        src_iface_idx: p.ingress_ifindex,
        src_mac: p.eth.dst_mac,
        bytes_transfer: p.frame_len as u64,
        packets_transfer: 1,
        created_at_ns: now_ns,
        last_seen_ns: now_ns,
        fin: false,
        fin_is_src: false,
        fin_both_ns: 0,
        rst_ns: 0,
        rst_is_src: false,
        counter_flow_key_hash,
    }
}

fn new_flow_to_server(
    packet: &Packet,
    backend: &Backend,
    dest_map_port: u16,
    client_flow_key: &FlowKey,
    now_ns: u64,
) -> (r: Flow)
    requires
        client_flow_key.ip == backend.ip,
    ensures
        r == server_flow_spec(*packet, *backend, dest_map_port, client_flow_key.port, now_ns),
{
    let counter_hash = client_flow_key.hash_key();
    Flow {
        direction: FlowDirection::ToServer,
        client_ip: packet.src_ip(),
        backend_ip: backend.ip,
        src_ip: backend.src_iface_ip,
        src_port: client_flow_key.port,
        dst_port: dest_map_port,
        dst_ip: backend.ip,
        dst_mac: backend.next_hop_mac,
        src_iface_idx: backend.src_iface_ifindex,
        src_mac: backend.src_iface_mac,
        bytes_transfer: packet.size(),
        packets_transfer: 1,
        created_at_ns: now_ns,
        last_seen_ns: now_ns,
        fin: false,
        fin_is_src: false,
        fin_both_ns: 0,
        rst_ns: 0,
        rst_is_src: false,
        counter_flow_key_hash: counter_hash,
    }
}

fn new_flow_to_client(
    packet: &Packet,
    backend: &Backend,
    counter_flow_key_hash: u64,
    now_ns: u64,
) -> (r: Flow)
    ensures
        r == client_flow_spec(*packet, *backend, counter_flow_key_hash, now_ns),
{
    Flow {
        direction: FlowDirection::ToClient,
        client_ip: packet.src_ip(),
        backend_ip: backend.ip,
        src_ip: packet.dst_ip(),
        src_port: packet.dst_port(),
        dst_port: packet.src_port(),
        dst_ip: packet.src_ip(),
        dst_mac: packet.eth.src_mac,
        src_iface_idx: packet.ingress_ifindex,
        src_mac: packet.eth.dst_mac,
        bytes_transfer: packet.size(),
        packets_transfer: 1,
        created_at_ns: now_ns,
        last_seen_ns: now_ns,
        fin: false,
        fin_is_src: false,
        fin_both_ns: 0,
        rst_ns: 0,
        rst_is_src: false,
        counter_flow_key_hash,
    }
}

/// The rewrite recipe the handler applies for a ToServer flow built on
/// a SYN.
pub open spec fn server_packet_flow_spec(backend: Backend, sf: Flow) -> PacketFlow {
    PacketFlow {
        iface: Iface {
            idx: backend.src_iface_ifindex,
            mac: backend.next_hop_mac,
            src_mac: backend.src_iface_mac,
            src_ip: backend.src_iface_ip,
        },
        src_mac: sf.src_mac,
        dst_mac: sf.dst_mac,
        src_ip: sf.src_ip,
        dst_ip: sf.dst_ip,
        src_port: sf.src_port,
        dst_port: sf.dst_port,
    }
}

/// The flow table after the SYN path ran: both flows inserted when an
/// ephemeral port was found and capacity allowed; the first alone when
/// the second insert hit capacity; unchanged otherwise.
pub open spec fn new_flow_map_spec(
    p: Packet,
    b: Backend,
    dest_map_port: u16,
    t0: Map<u64, Flow>,
    n0: int,
    draws: Seq<u32>,
    now_ns: u64,
) -> Map<u64, Flow> {
    match eph_candidate_at(b.ip, t0, draws, 0) {
        None => t0,
        Some(i) => {
            let eph = eph_port_of(draws[i]);
            let ch = flow_key_hash(b.ip, eph);
            let sh = flow_key_hash(p.spec_src_ip(), p.spec_src_port());
            let sf = server_flow_spec(p, b, dest_map_port, eph, now_ns);
            let cf = client_flow_spec(p, b, sh, now_ns);
            if !t0.contains_key(sh) && n0 == MAX_ACTIVE_FLOWS {
                t0
            } else if ch != sh && n0 + (if t0.contains_key(sh) {
                0int
            } else {
                1int
            }) == MAX_ACTIVE_FLOWS {
                t0.insert(sh, sf)
            } else {
                t0.insert(sh, sf).insert(ch, cf)
            }
        },
    }
}

/// What the SYN path returns: the ToServer rewrite recipe on success,
/// no-ephemeral-ports when all five draws collided, map-insert-failed
/// at capacity.
pub open spec fn new_flow_result_spec(
    p: Packet,
    b: Backend,
    dest_map_port: u16,
    t0: Map<u64, Flow>,
    n0: int,
    draws: Seq<u32>,
    now_ns: u64,
) -> Result<PacketFlow, XlbErr> {
    match eph_candidate_at(b.ip, t0, draws, 0) {
        None => Result::Err(XlbErr::ErrNoEphemeralPorts),
        Some(i) => {
            let eph = eph_port_of(draws[i]);
            let ch = flow_key_hash(b.ip, eph);
            let sh = flow_key_hash(p.spec_src_ip(), p.spec_src_port());
            let sf = server_flow_spec(p, b, dest_map_port, eph, now_ns);
            if !t0.contains_key(sh) && n0 == MAX_ACTIVE_FLOWS {
                Result::Err(XlbErr::ErrMapInsertFailed)
            } else if ch != sh && n0 + (if t0.contains_key(sh) {
                0int
            } else {
                1int
            }) == MAX_ACTIVE_FLOWS {
                Result::Err(XlbErr::ErrMapInsertFailed)
            } else {
                Result::Ok(server_packet_flow_spec(b, sf))
            }
        },
    }
}

/// Flow path for a new connection (SYN): pick a free ephemeral port,
/// create the flow pair pointing at one another, and return the
/// ToServer rewrite recipe. A failed second insert leaves the first
/// entry for the maintenance loop to reap as an orphan.
#[verifier::rlimit(60)]
pub fn new_flow(
    packet: &Packet,
    backend: &Backend,
    dest_map_port: u16,
    flows: &mut FlowTable,
    draws: &[u32; 5],
    now_ns: u64,
) -> (r: Result<PacketFlow, XlbErr>)
    requires
        old(flows).wf(),
    ensures
        final(flows).wf(),
        final(flows)@ =~= new_flow_map_spec(
            *packet,
            *backend,
            dest_map_port,
            old(flows)@,
            old(flows).entries_seq().len() as int,
            draws@,
            now_ns,
        ),
        r == new_flow_result_spec(
            *packet,
            *backend,
            dest_map_port,
            old(flows)@,
            old(flows).entries_seq().len() as int,
            draws@,
            now_ns,
        ),
{
    let client_key = match find_ephemeral_port(backend, flows, draws) {
        Ok(k) => k,
        Err(e) => {
            return Err(e);
        },
    };
    let client_key_hash = client_key.hash_key();

    let server_flow = new_flow_to_server(packet, backend, dest_map_port, &client_key, now_ns);
    let server_key_hash = server_flow_key(packet.src_ip(), packet.src_port()).hash_key();

    let packet_flow = PacketFlow {
        iface: Iface {
            idx: backend.src_iface_ifindex,
            mac: backend.next_hop_mac,
            src_mac: backend.src_iface_mac,
            src_ip: backend.src_iface_ip,
        },
        src_mac: server_flow.src_mac,
        dst_mac: server_flow.dst_mac,
        src_ip: server_flow.src_ip,
        dst_ip: server_flow.dst_ip,
        src_port: server_flow.src_port,
        dst_port: server_flow.dst_port,
    };

    match flows.insert(server_key_hash, server_flow) {
        Ok(()) => {},
        Err(_) => {
            return Err(XlbErr::ErrMapInsertFailed);
        },
    }

    let client_flow = new_flow_to_client(packet, backend, server_key_hash, now_ns);
    match flows.insert(client_key_hash, client_flow) {
        Ok(()) => {},
        Err(_) => {
            return Err(XlbErr::ErrMapInsertFailed);
        },
    }

    Ok(packet_flow)
}

/// A flow after one FIN/RST marking pass for its own direction.
pub open spec fn marked_flow_spec(f: Flow, fin: bool, rst: bool, now_ns: u64) -> Flow {
    if fin {
        Flow { fin: true, ..f }
    } else if rst {
        Flow { rst_ns: now_ns, rst_is_src: true, ..f }
    } else {
        f
    }
}

/// The flow table after closure marking: the flow for this direction
/// gets its FIN bit or RST stamp; when the counter flow exists and
/// both sides have now sent a FIN, both get the shared closure stamp;
/// a RST is propagated to the counter flow.
pub open spec fn close_flow_map_spec(
    t0: Map<u64, Flow>,
    h: u64,
    fin: bool,
    rst: bool,
    now_ns: u64,
) -> Map<u64, Flow> {
    if !t0.contains_key(h) {
        t0
    } else {
        let f1 = marked_flow_spec(t0[h], fin, rst, now_ns);
        let t1 = t0.insert(h, f1);
        let ch = t0[h].counter_flow_key_hash;
        if !t1.contains_key(ch) {
            t1
        } else {
            let cf = t1[ch];
            if fin && cf.fin {
                t1.insert(h, Flow { fin_both_ns: now_ns, ..f1 }).insert(
                    ch,
                    Flow { fin_both_ns: now_ns, fin_is_src: true, ..cf },
                )
            } else if rst {
                t1.insert(ch, Flow { rst_ns: now_ns, rst_is_src: false, ..cf })
            } else {
                t1
            }
        }
    }
}

/// Closure marking surfaces an orphan only when the flow exists but
/// its counter flow is gone.
pub open spec fn close_flow_ok_spec(t0: Map<u64, Flow>, h: u64) -> bool {
    !t0.contains_key(h) || {
        let ch = t0[h].counter_flow_key_hash;
        ch == h || t0.contains_key(ch)
    }
}

/// Record FIN/RST closure state on a flow and its counter flow. A
/// missing flow succeeds silently (a FIN on an already-reaped flow); a
/// missing counter flow is surfaced as an orphan.
pub fn close_flow(
    packet: &Packet,
    direction: &FlowDirection,
    fin: bool,
    rst: bool,
    flows: &mut FlowTable,
    now_ns: u64,
) -> (r: Result<(), XlbErr>)
    requires
        old(flows).wf(),
    ensures
        final(flows).wf(),
        ({
            let key = flow_key_spec(*packet, *direction);
            let h = flow_key_hash(key.0, key.1);
            &&& final(flows)@ =~= close_flow_map_spec(old(flows)@, h, fin, rst, now_ns)
            &&& r == (if close_flow_ok_spec(old(flows)@, h) {
                Result::<(), XlbErr>::Ok(())
            } else {
                Result::<(), XlbErr>::Err(XlbErr::ErrOrphanedFlow)
            })
        }),
{
    let flow_key = get_flow_key(packet, direction);
    let key_hash = flow_key.hash_key();

    let flow = match flows.lookup(key_hash) {
        Some(f) => f,
        None => {
            return Ok(());
        },
    };

    let marked = if fin {
        Flow { fin: true, ..flow }
    } else if rst {
        Flow { rst_ns: now_ns, rst_is_src: true, ..flow }
    } else {
        flow
    };
    match flows.insert(key_hash, marked) {
        Ok(()) => {},
        Err(_) => {
            proof {
                assert(false);
            }
            return Err(XlbErr::ErrMapInsertFailed);
        },
    }

    let counter_flow = match flows.lookup(flow.counter_flow_key_hash) {
        Some(cf) => cf,
        None => {
            // The flow exists but its sibling is missing; it will be
            // cleaned up later as an orphan.
            return Err(XlbErr::ErrOrphanedFlow);
        },
    };

    if fin && counter_flow.fin {
        let f2 = Flow { fin_both_ns: now_ns, ..marked };
        match flows.insert(key_hash, f2) {
            Ok(()) => {},
            Err(_) => {
                proof {
                    assert(false);
                }
                return Err(XlbErr::ErrMapInsertFailed);
            },
        }
        let cf2 = Flow { fin_both_ns: now_ns, fin_is_src: true, ..counter_flow };
        match flows.insert(flow.counter_flow_key_hash, cf2) {
            Ok(()) => {},
            Err(_) => {
                proof {
                    assert(false);
                }
                return Err(XlbErr::ErrMapInsertFailed);
            },
        }
    } else if rst {
        let cf2 = Flow { rst_ns: now_ns, rst_is_src: false, ..counter_flow };
        match flows.insert(flow.counter_flow_key_hash, cf2) {
            Ok(()) => {},
            Err(_) => {
                proof {
                    assert(false);
                }
                return Err(XlbErr::ErrMapInsertFailed);
            },
        }
    }

    Ok(())
}

/// A flow after a fast-path liveness update: counters grow by the
/// frame just seen (saturating at the top) and the last-seen stamp
/// moves to now.
pub open spec fn touched_flow_spec(f: Flow, size: u64, now_ns: u64) -> Flow {
    Flow {
        bytes_transfer: if f.bytes_transfer + size > 0xffff_ffff_ffff_ffffu64 {
            0xffff_ffff_ffff_ffffu64
        } else {
            (f.bytes_transfer + size) as u64
        },
        packets_transfer: if f.packets_transfer + 1 > 0xffff_ffff_ffff_ffffu64 {
            0xffff_ffff_ffff_ffffu64
        } else {
            (f.packets_transfer + 1) as u64
        },
        last_seen_ns: now_ns,
        ..f
    }
}

/// Routing of an (expectedly) existing flow: a matching packet without
/// the SYN flag should belong to an active connection. A miss on the
/// client side is an orphan; a miss on the backend side is unknown
/// return traffic and passes through.
pub fn existing_flow(
    packet: &Packet,
    direction: &FlowDirection,
    flows: &mut FlowTable,
    now_ns: u64,
) -> (r: Result<Option<PacketFlow>, XlbErr>)
    requires
        old(flows).wf(),
    ensures
        final(flows).wf(),
        ({
            let key = flow_key_spec(*packet, *direction);
            let h = flow_key_hash(key.0, key.1);
            let t0 = old(flows)@;
            if !t0.contains_key(h) {
                final(flows)@ =~= t0 && r == (if *direction == FlowDirection::ToClient {
                    Result::<Option<PacketFlow>, XlbErr>::Ok(None)
                } else {
                    Result::<Option<PacketFlow>, XlbErr>::Err(XlbErr::ErrOrphanedFlow)
                })
            } else {
                let f = t0[h];
                &&& final(flows)@ =~= t0.insert(
                    h,
                    touched_flow_spec(f, packet.frame_len as u64, now_ns),
                )
                &&& r == Result::<Option<PacketFlow>, XlbErr>::Ok(
                    Some(
                        PacketFlow {
                            iface: Iface {
                                idx: f.src_iface_idx,
                                mac: f.dst_mac,
                                src_mac: f.src_mac,
                                src_ip: f.src_ip,
                            },
                            src_mac: f.src_mac,
                            dst_mac: f.dst_mac,
                            src_ip: f.src_ip,
                            dst_ip: f.dst_ip,
                            src_port: f.src_port,
                            dst_port: f.dst_port,
                        },
                    ),
                )
            }
        }),
{
    let flow_key = get_flow_key(packet, direction);
    let key_hash = flow_key.hash_key();

    let flow = match flows.lookup(key_hash) {
        Some(f) => f,
        None => {
            if matches!(direction, FlowDirection::ToClient) {
                return Ok(None);
            }
            return Err(XlbErr::ErrOrphanedFlow);
        },
    };

    let touched = Flow {
        bytes_transfer: flow.bytes_transfer.saturating_add(packet.size()),
        packets_transfer: flow.packets_transfer.saturating_add(1),
        last_seen_ns: now_ns,
        ..flow
    };
    match flows.insert(key_hash, touched) {
        Ok(()) => {},
        Err(_) => {
            proof {
                assert(false);
            }
            return Err(XlbErr::ErrMapInsertFailed);
        },
    }

    Ok(Some(PacketFlow {
        iface: flow_to_iface(&flow),
        src_mac: flow.src_mac,
        dst_mac: flow.dst_mac,
        src_ip: flow.src_ip,
        dst_ip: flow.dst_ip,
        src_port: flow.src_port,
        dst_port: flow.dst_port,
    }))
}

/// The rewrite recipe a stored flow stands for.
pub open spec fn flow_packet_flow_spec(f: Flow) -> PacketFlow {
    PacketFlow {
        iface: Iface { idx: f.src_iface_idx, mac: f.dst_mac, src_mac: f.src_mac, src_ip: f.src_ip },
        src_mac: f.src_mac,
        dst_mac: f.dst_mac,
        src_ip: f.src_ip,
        dst_ip: f.dst_ip,
        src_port: f.src_port,
        dst_port: f.dst_port,
    }
}

/// Whether this packet takes the new-connection path: a SYN travelling
/// from a client toward the service.
pub open spec fn syn_path_applies(p: Packet, d: FlowDirection) -> bool {
    p.l4 matches ProtoHeader::Tcp(t) && t.spec_is_syn() && d == FlowDirection::ToServer
}

/// The flow table after the TCP state machine ran on one packet.
pub open spec fn tcp_flows_after_spec(
    p: Packet,
    d: FlowDirection,
    bt: Seq<Backend>,
    cur: u32,
    t0: Map<u64, Flow>,
    n0: int,
    dest_map_port: u16,
    draws: Seq<u32>,
    now_ns: u64,
) -> Map<u64, Flow> {
    let t = p.l4->Tcp_0;
    if syn_path_applies(p, d) {
        match rr_choice(bt, cur) {
            None => t0,
            Some(bi) => new_flow_map_spec(p, bt[bi], dest_map_port, t0, n0, draws, now_ns),
        }
    } else {
        let key = flow_key_spec(p, d);
        let h = flow_key_hash(key.0, key.1);
        let fin = t.spec_is_fin();
        let rst = t.spec_is_rst();
        let t1 = if fin || rst {
            close_flow_map_spec(t0, h, fin, rst, now_ns)
        } else {
            t0
        };
        if (fin || rst) && !close_flow_ok_spec(t0, h) {
            t1
        } else if !t1.contains_key(h) {
            t1
        } else {
            t1.insert(h, touched_flow_spec(t1[h], p.frame_len as u64, now_ns))
        }
    }
}

/// The round-robin cursor after the TCP state machine ran: advanced
/// past the chosen slot only when a backend was selected for a SYN.
pub open spec fn tcp_cursor_after_spec(p: Packet, d: FlowDirection, bt: Seq<Backend>, cur: u32)
    -> u32 {
    if syn_path_applies(p, d) {
        match rr_choice(bt, cur) {
            Some(bi) => (((bi + 1) % (crate::consts::MAX_BACKENDS as int)) as u32),
            None => cur,
        }
    } else {
        cur
    }
}

/// What the TCP state machine decides for one packet.
pub open spec fn tcp_verdict_spec(
    p: Packet,
    d: FlowDirection,
    bt: Seq<Backend>,
    cur: u32,
    t0: Map<u64, Flow>,
    n0: int,
    dest_map_port: u16,
    draws: Seq<u32>,
    now_ns: u64,
) -> Result<TcpVerdict, XlbErr> {
    let t = p.l4->Tcp_0;
    if syn_path_applies(p, d) {
        match rr_choice(bt, cur) {
            None => Result::Err(XlbErr::ErrNoBackends),
            Some(bi) => {
                let b = bt[bi];
                match eph_candidate_at(b.ip, t0, draws, 0) {
                    None => {
                        if p.ip is Ipv4 {
                            Result::Ok(TcpVerdict::RstReturn)
                        } else {
                            Result::Err(XlbErr::ErrNotYetImpl)
                        }
                    },
                    Some(_) => match new_flow_result_spec(
                        p,
                        b,
                        dest_map_port,
                        t0,
                        n0,
                        draws,
                        now_ns,
                    ) {
                        Result::Ok(pf) => Result::Ok(TcpVerdict::Forwarded(pf)),
                        Result::Err(e) => Result::Err(e),
                    },
                }
            },
        }
    } else {
        let key = flow_key_spec(p, d);
        let h = flow_key_hash(key.0, key.1);
        let fin = t.spec_is_fin();
        let rst = t.spec_is_rst();
        if (fin || rst) && !close_flow_ok_spec(t0, h) {
            Result::Err(XlbErr::ErrOrphanedFlow)
        } else {
            let t1 = if fin || rst {
                close_flow_map_spec(t0, h, fin, rst, now_ns)
            } else {
                t0
            };
            if !t1.contains_key(h) {
                if d == FlowDirection::ToClient {
                    Result::Ok(TcpVerdict::Ignore)
                } else {
                    Result::Err(XlbErr::ErrOrphanedFlow)
                }
            } else {
                Result::Ok(TcpVerdict::Forwarded(flow_packet_flow_spec(t1[h])))
            }
        }
    }
}

/// How the TCP state machine leaves the packet: untouched, except when
/// an exhausted ephemeral-port search turns it into a RST for the
/// client (IPv4), or swaps the ethernet addresses before the IPv6 RST
/// path gives up.
pub open spec fn tcp_packet_rel(
    p: Packet,
    q: Packet,
    d: FlowDirection,
    bt: Seq<Backend>,
    cur: u32,
    t0: Map<u64, Flow>,
    draws: Seq<u32>,
) -> bool {
    if syn_path_applies(p, d) && rr_choice(bt, cur) is Some && eph_candidate_at(
        bt[rr_choice(bt, cur)->Some_0].ip,
        t0,
        draws,
        0,
    ) is None {
        if p.ip is Ipv4 {
            crate::packet::rst_transform_spec(p, q)
        } else {
            q == (Packet {
                eth: crate::headers::EthHeader {
                    src_mac: p.eth.dst_mac,
                    dst_mac: p.eth.src_mac,
                    ..p.eth
                },
                ..p
            })
        }
    } else {
        q == p
    }
}

/// Process load balancing of one TCP packet: backend selection and
/// flow creation on a client SYN, closure marking on FIN/RST, and the
/// existing-flow update otherwise.
#[verifier::rlimit(100)]
pub fn handle_tcp_packet(
    packet: &mut Packet,
    direction: &FlowDirection,
    backends: &BackendTable,
    cursor: &mut u32,
    flows: &mut FlowTable,
    strategy: &Strategy,
    port_map_dest: u16,
    draws: &[u32; 5],
    now_ns: u64,
) -> (r: Result<TcpVerdict, XlbErr>)
    requires
        old(packet).wf(),
        old(flows).wf(),
        backends.wf(),
        old(packet).l4 is Tcp,
    ensures
        final(packet).wf(),
        final(flows).wf(),
        final(flows)@ =~= tcp_flows_after_spec(
            *old(packet),
            *direction,
            backends@,
            *old(cursor),
            old(flows)@,
            old(flows).entries_seq().len() as int,
            port_map_dest,
            draws@,
            now_ns,
        ),
        *final(cursor) == tcp_cursor_after_spec(
            *old(packet),
            *direction,
            backends@,
            *old(cursor),
        ),
        r == tcp_verdict_spec(
            *old(packet),
            *direction,
            backends@,
            *old(cursor),
            old(flows)@,
            old(flows).entries_seq().len() as int,
            port_map_dest,
            draws@,
            now_ns,
        ),
        tcp_packet_rel(
            *old(packet),
            *final(packet),
            *direction,
            backends@,
            *old(cursor),
            old(flows)@,
            draws@,
        ),
{
    let (is_syn, is_fin, is_rst) = match &packet.l4 {
        ProtoHeader::Tcp(t) => (t.is_syn(), t.is_fin(), t.is_rst()),
        ProtoHeader::Udp(_) => {
            proof {
                assert(false);
            }
            (false, false, false)
        },
    };

    if is_syn && matches!(direction, FlowDirection::ToServer) {
        let next_backend = match select_backend(strategy, backends, cursor) {
            Some(b) => b,
            None => {
                return Err(XlbErr::ErrNoBackends);
            },
        };

        return match new_flow(packet, &next_backend, port_map_dest, flows, draws, now_ns) {
            Ok(flow) => Ok(TcpVerdict::Forwarded(flow)),
            Err(XlbErr::ErrNoEphemeralPorts) => match packet.rst() {
                Ok(_) => Ok(TcpVerdict::RstReturn),
                Err(err) => Err(err),
            },
            Err(err) => Err(err),
        };
    }

    if is_fin || is_rst {
        // Record closure state but continue to process the packet.
        match close_flow(packet, direction, is_fin, is_rst, flows, now_ns) {
            Ok(()) => {},
            Err(e) => {
                return Err(e);
            },
        }
    }

    match existing_flow(packet, direction, flows, now_ns) {
        Ok(Some(flow)) => Ok(TcpVerdict::Forwarded(flow)),
        Ok(None) => Ok(TcpVerdict::Ignore),
        Err(e) => Err(e),
    }
}

/// The fast path's entry: classify the packet, honour the drain flag,
/// run the TCP state machine and apply the resolved rewrite.
pub struct PacketHandler;

impl PacketHandler {
    #[verifier::rlimit(100)]
    pub fn handle(
        packet: &mut Packet,
        config: &EbpfConfig,
        backends: &BackendTable,
        cursor: &mut u32,
        flows: &mut FlowTable,
        shutdown: bool,
        draws: &[u32; 5],
        now_ns: u64,
    ) -> (r: Result<PacketEvent, XlbErr>)
        requires
            old(packet).wf(),
            old(flows).wf(),
            backends.wf(),
        ensures
            final(packet).wf(),
            final(flows).wf(),
            ({
                let p = *old(packet);
                let t0 = old(flows)@;
                let n0 = old(flows).entries_seq().len() as int;
                match should_process_spec(*config, p) {
                    None => r == Result::<PacketEvent, XlbErr>::Ok(PacketEvent::Pass) && *final(packet) == p && final(flows)@ =~= t0 && *final(cursor) == *old(cursor),
                    Some((d, pm)) => {
                        match p.l4 {
                            ProtoHeader::Udp(_) => r == Result::<PacketEvent, XlbErr>::Ok(
                                PacketEvent::Pass,
                            ) && *final(packet) == p && final(flows)@ =~= t0 && *final(cursor)
                                == *old(cursor),
                            ProtoHeader::Tcp(_) => {
                                if shutdown {
                                    &&& final(flows)@ =~= t0
                                    &&& *final(cursor) == *old(cursor)
                                    &&& if p.ip is Ipv4 {
                                        r == Result::<PacketEvent, XlbErr>::Ok(PacketEvent::Return)
                                            && crate::packet::rst_transform_spec(
                                            p,
                                            *final(packet),
                                        )
                                    } else {
                                        r == Result::<PacketEvent, XlbErr>::Err(
                                            XlbErr::ErrNotYetImpl,
                                        )
                                    }
                                } else {
                                    &&& final(flows)@ =~= tcp_flows_after_spec(
                                        p,
                                        d,
                                        backends@,
                                        *old(cursor),
                                        t0,
                                        n0,
                                        pm.remote_port,
                                        draws@,
                                        now_ns,
                                    )
                                    &&& *final(cursor) == tcp_cursor_after_spec(
                                        p,
                                        d,
                                        backends@,
                                        *old(cursor),
                                    )
                                    &&& match tcp_verdict_spec(
                                        p,
                                        d,
                                        backends@,
                                        *old(cursor),
                                        t0,
                                        n0,
                                        pm.remote_port,
                                        draws@,
                                        now_ns,
                                    ) {
                                        Result::Ok(TcpVerdict::Forwarded(pf)) => {
                                            if p.ip is Ipv6 {
                                                r == Result::<PacketEvent, XlbErr>::Err(
                                                    XlbErr::ErrNotYetImpl,
                                                )
                                            } else if pf.src_ip > 0xffff_ffff || pf.dst_ip
                                                > 0xffff_ffff {
                                                r == Result::<PacketEvent, XlbErr>::Err(
                                                    XlbErr::ErrInvalidIpVal,
                                                )
                                            } else {
                                                r == Result::<PacketEvent, XlbErr>::Ok(
                                                    PacketEvent::Forward(pf.iface),
                                                ) && crate::packet::reroute_transform_spec(
                                                    p,
                                                    *final(packet),
                                                    pf.src_mac,
                                                    pf.dst_mac,
                                                    pf.src_ip,
                                                    pf.dst_ip,
                                                    pf.src_port,
                                                    pf.dst_port,
                                                )
                                            }
                                        },
                                        Result::Ok(TcpVerdict::RstReturn) => r == Result::<
                                            PacketEvent,
                                            XlbErr,
                                        >::Ok(PacketEvent::Return)
                                            && crate::packet::rst_transform_spec(
                                            p,
                                            *final(packet),
                                        ),
                                        Result::Ok(TcpVerdict::Ignore) => r == Result::<
                                            PacketEvent,
                                            XlbErr,
                                        >::Ok(PacketEvent::Pass) && *final(packet) == p,
                                        Result::Err(e) => r == Result::<PacketEvent, XlbErr>::Err(
                                            e,
                                        ),
                                    }
                                }
                            },
                        }
                    },
                }
            }),
    {
        let (direction, port_map) = match should_process_packet(config, packet) {
            Some(result) => result,
            None => {
                return Ok(PacketEvent::Pass);
            },
        };

        match &packet.l4 {
            ProtoHeader::Tcp(_) => {
                if shutdown {
                    // Draining: convert every intercepted TCP packet
                    // into a RST for its sender.
                    match packet.rst() {
                        Ok(()) => {},
                        Err(e) => {
                            return Err(e);
                        },
                    }
                    return Ok(PacketEvent::Return);
                }

                let packet_flow = match handle_tcp_packet(
                    packet,
                    &direction,
                    backends,
                    cursor,
                    flows,
                    &config.strategy,
                    port_map.remote_port,
                    draws,
                    now_ns,
                ) {
                    Ok(TcpVerdict::Forwarded(flow)) => flow,
                    Ok(TcpVerdict::RstReturn) => {
                        return Ok(PacketEvent::Return);
                    },
                    Ok(TcpVerdict::Ignore) => {
                        return Ok(PacketEvent::Pass);
                    },
                    Err(e) => {
                        return Err(e);
                    },
                };

                match packet.reroute(
                    &MacAddr::new(packet_flow.src_mac),
                    &MacAddr::new(packet_flow.dst_mac),
                    packet_flow.src_ip,
                    packet_flow.dst_ip,
                    packet_flow.src_port,
                    packet_flow.dst_port,
                ) {
                    Ok(()) => {},
                    Err(e) => {
                        return Err(e);
                    },
                }

                Ok(PacketEvent::Forward(packet_flow.iface))
            },
            ProtoHeader::Udp(_) => Ok(PacketEvent::Pass),
        }
    }
}

} // verus!
