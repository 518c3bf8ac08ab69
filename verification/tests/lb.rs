//! End-to-end scenarios for the packet fast path: connection setup,
//! established-flow forwarding, backend responses, drain RSTs and the
//! FIN close sequence.

use xlb::config::{EbpfConfig, IpVersion, Proto, RoutingMode, Strategy};
use xlb::errors::XlbErr;
use xlb::flow_table::{BackendTable, FlowTable};
use xlb::handler::{PacketEvent, PacketHandler};
use xlb::packet::{IpHeader, Packet, ProtoHeader};
use xlb::types::{Backend, FlowKey, PortMapping};

const CLIENT_IP: u32 = 0xc0a80164; // 192.168.1.100
const LISTEN_IP: u32 = 0x0a000001; // 10.0.0.1
const BACKEND_IP: u32 = 0x0a010005; // 10.1.0.5
const CLIENT_MAC: [u8; 6] = [0xCC, 0xCC, 0xCC, 0xCC, 0xCC, 0xCC];
const LB_MAC: [u8; 6] = [0xDD, 0xDD, 0xDD, 0xDD, 0xDD, 0xDD];
const IFACE_MAC: [u8; 6] = [0xAA, 0xAA, 0xAA, 0xAA, 0xAA, 0x01];
const NEXT_HOP_MAC: [u8; 6] = [0xBB, 0xBB, 0xBB, 0xBB, 0xBB, 0x02];
const INGRESS: u16 = 7;

fn be16(v: u16) -> [u8; 2] {
    [(v >> 8) as u8, v as u8]
}

fn be32(v: u32) -> [u8; 4] {
    [(v >> 24) as u8, (v >> 16) as u8, (v >> 8) as u8, v as u8]
}

fn fold(mut sum: u64) -> u16 {
    while sum >> 16 != 0 {
        sum = (sum & 0xffff) + (sum >> 16);
    }
    sum as u16
}

/// Build a TCP/IPv4 frame with valid IP and TCP checksums.
#[allow(clippy::too_many_arguments)]
fn tcp_frame(
    src_mac: [u8; 6],
    dst_mac: [u8; 6],
    src_ip: u32,
    dst_ip: u32,
    src_port: u16,
    dst_port: u16,
    seq: u32,
    ack: u32,
    flags: u8,
    payload: &[u8],
) -> Vec<u8> {
    let total_len = (40 + payload.len()) as u16;
    let mut ip = vec![0x45u8, 0x00];
    ip.extend_from_slice(&be16(total_len));
    ip.extend_from_slice(&be16(0x1234)); // ident
    ip.extend_from_slice(&be16(0x4000)); // flags/frag
    ip.push(64); // ttl
    ip.push(6); // proto
    ip.extend_from_slice(&[0, 0]); // checksum placeholder
    ip.extend_from_slice(&be32(src_ip));
    ip.extend_from_slice(&be32(dst_ip));
    let mut sum = 0u64;
    for w in ip.chunks(2) {
        sum += u16::from_be_bytes([w[0], w[1]]) as u64;
    }
    let ck = !fold(sum);
    ip[10] = (ck >> 8) as u8;
    ip[11] = ck as u8;

    let mut tcp = Vec::new();
    tcp.extend_from_slice(&be16(src_port));
    tcp.extend_from_slice(&be16(dst_port));
    tcp.extend_from_slice(&be32(seq));
    tcp.extend_from_slice(&be32(ack));
    tcp.push(0x50); // doff = 5
    tcp.push(flags);
    tcp.extend_from_slice(&be16(0x7210)); // window
    tcp.extend_from_slice(&[0, 0]); // checksum placeholder
    tcp.extend_from_slice(&be16(0)); // urgent
    tcp.extend_from_slice(payload);
    let mut sum = 0u64;
    sum += (src_ip >> 16) as u64 + (src_ip & 0xffff) as u64;
    sum += (dst_ip >> 16) as u64 + (dst_ip & 0xffff) as u64;
    sum += 6 + (20 + payload.len()) as u64;
    let mut seg = tcp.clone();
    if seg.len() % 2 == 1 {
        seg.push(0);
    }
    for w in seg.chunks(2) {
        sum += u16::from_be_bytes([w[0], w[1]]) as u64;
    }
    let ck = !fold(sum);
    tcp[16] = (ck >> 8) as u8;
    tcp[17] = ck as u8;

    let mut frame = Vec::new();
    frame.extend_from_slice(&dst_mac);
    frame.extend_from_slice(&src_mac);
    frame.extend_from_slice(&be16(0x0800));
    frame.extend_from_slice(&ip);
    frame.extend_from_slice(&tcp);
    frame
}

/// Check the IP header checksum of an encoded frame.
fn ip_checksum_ok(frame: &[u8]) -> bool {
    let mut sum = 0u64;
    for w in frame[14..34].chunks(2) {
        sum += u16::from_be_bytes([w[0], w[1]]) as u64;
    }
    fold(sum) == 0xffff
}

/// Check the TCP checksum of an encoded frame (header plus payload up
/// to the IP total length).
fn tcp_checksum_ok(frame: &[u8]) -> bool {
    let total_len = u16::from_be_bytes([frame[16], frame[17]]) as usize;
    let src_ip = u32::from_be_bytes([frame[26], frame[27], frame[28], frame[29]]);
    let dst_ip = u32::from_be_bytes([frame[30], frame[31], frame[32], frame[33]]);
    let tcp_len = total_len - 20;
    let mut sum = 0u64;
    sum += (src_ip >> 16) as u64 + (src_ip & 0xffff) as u64;
    sum += (dst_ip >> 16) as u64 + (dst_ip & 0xffff) as u64;
    sum += 6 + tcp_len as u64;
    let mut seg = frame[34..14 + total_len].to_vec();
    if seg.len() % 2 == 1 {
        seg.push(0);
    }
    for w in seg.chunks(2) {
        sum += u16::from_be_bytes([w[0], w[1]]) as u64;
    }
    fold(sum) == 0xffff
}

fn test_config() -> EbpfConfig {
    let mut config = EbpfConfig::empty();
    config.ip_addr = LISTEN_IP as u128;
    config.ip_ver = IpVersion::Ipv4;
    config.proto = Proto::Tcp;
    config.mode = RoutingMode::Nat;
    config.strategy = Strategy::RoundRobin;
    config.port_mappings[0] = PortMapping {
        local_port: 80,
        remote_port: 8080,
    };
    config
}

fn test_backends() -> BackendTable {
    let mut backends = BackendTable::new();
    backends.set(
        0,
        Backend {
            ip: BACKEND_IP as u128,
            src_iface_ip: LISTEN_IP as u128,
            bytes_transfer: 0,
            src_iface_mac: IFACE_MAC,
            next_hop_mac: NEXT_HOP_MAC,
            src_iface_ifindex: 3,
            conns: 0,
            ip_ver: IpVersion::Ipv4,
        },
    );
    backends
}

fn decode(frame: &Vec<u8>) -> Packet {
    Packet::new(frame, INGRESS).unwrap().unwrap()
}

const DRAWS: [u32; 5] = [0, 1, 2, 3, 4];
const EPH: u16 = 5000; // the port draw 0 maps to

/// Run the SYN through a fresh table; returns the state afterwards.
fn accept_syn(flows: &mut FlowTable, cursor: &mut u32, now: u64) -> (Packet, PacketEvent) {
    let frame = tcp_frame(
        CLIENT_MAC, LB_MAC, CLIENT_IP, LISTEN_IP, 44123, 80, 1000, 0, 0x02, &[],
    );
    let mut packet = decode(&frame);
    let config = test_config();
    let backends = test_backends();
    let event = PacketHandler::handle(
        &mut packet, &config, &backends, cursor, flows, false, &DRAWS, now,
    )
    .unwrap();
    (packet, event)
}

#[test]
fn syn_forward_rewrites_to_backend() {
    let mut flows = FlowTable::new();
    let mut cursor = 0u32;
    let (packet, event) = accept_syn(&mut flows, &mut cursor, 1_000);

    match event {
        PacketEvent::Forward(iface) => {
            assert_eq!(iface.idx, 3);
            assert_eq!(iface.mac, NEXT_HOP_MAC);
        }
        other => panic!("expected Forward, got {:?}", other),
    }

    let out = packet.to_bytes();
    // ethernet rewritten to the egress pair
    assert_eq!(&out[0..6], &NEXT_HOP_MAC);
    assert_eq!(&out[6..12], &IFACE_MAC);
    // src 10.0.0.1:EPH, dst 10.1.0.5:8080
    assert_eq!(&out[26..30], &be32(LISTEN_IP));
    assert_eq!(&out[30..34], &be32(BACKEND_IP));
    assert_eq!(u16::from_be_bytes([out[34], out[35]]), EPH);
    assert_eq!(u16::from_be_bytes([out[36], out[37]]), 8080);
    assert!((5000..55000).contains(&EPH));
    assert!(ip_checksum_ok(&out));
    assert!(tcp_checksum_ok(&out));

    // two flows inserted, pointing at each other
    assert_eq!(flows.len(), 2);
    let sh = FlowKey::new(CLIENT_IP as u128, 44123).hash_key();
    let ch = FlowKey::new(BACKEND_IP as u128, EPH).hash_key();
    let server = flows.lookup(sh).expect("server flow");
    let client = flows.lookup(ch).expect("client flow");
    assert_eq!(server.counter_flow_key_hash, ch);
    assert_eq!(client.counter_flow_key_hash, sh);
    assert_eq!(server.dst_ip, BACKEND_IP as u128);
    assert_eq!(server.src_port, EPH);
    assert_eq!(client.src_iface_idx, INGRESS);
}

#[test]
fn ack_forward_uses_existing_flow() {
    let mut flows = FlowTable::new();
    let mut cursor = 0u32;
    accept_syn(&mut flows, &mut cursor, 1_000);
    let sh = FlowKey::new(CLIENT_IP as u128, 44123).hash_key();
    let before = flows.lookup(sh).unwrap();

    let frame = tcp_frame(
        CLIENT_MAC, LB_MAC, CLIENT_IP, LISTEN_IP, 44123, 80, 1001, 501, 0x10, b"hello",
    );
    let frame_len = frame.len() as u64;
    let mut packet = decode(&frame);
    let config = test_config();
    let backends = test_backends();
    let event = PacketHandler::handle(
        &mut packet, &config, &backends, &mut cursor, &mut flows, false, &DRAWS, 2_000,
    )
    .unwrap();

    match event {
        PacketEvent::Forward(iface) => assert_eq!(iface.idx, 3),
        other => panic!("expected Forward, got {:?}", other),
    }
    let out = packet.to_bytes();
    assert_eq!(&out[0..6], &NEXT_HOP_MAC);
    assert_eq!(&out[26..30], &be32(LISTEN_IP));
    assert_eq!(&out[30..34], &be32(BACKEND_IP));
    assert_eq!(u16::from_be_bytes([out[34], out[35]]), EPH);
    assert_eq!(u16::from_be_bytes([out[36], out[37]]), 8080);
    assert!(ip_checksum_ok(&out));
    assert!(tcp_checksum_ok(&out));
    // payload is preserved byte for byte
    assert_eq!(&out[54..59], b"hello");

    let after = flows.lookup(sh).unwrap();
    assert_eq!(after.bytes_transfer, before.bytes_transfer + frame_len);
    assert_eq!(after.packets_transfer, before.packets_transfer + 1);
    assert_eq!(after.last_seen_ns, 2_000);
}

#[test]
fn backend_response_rewritten_to_client() {
    let mut flows = FlowTable::new();
    let mut cursor = 0u32;
    accept_syn(&mut flows, &mut cursor, 1_000);

    let frame = tcp_frame(
        NEXT_HOP_MAC, IFACE_MAC, BACKEND_IP, LISTEN_IP, 8080, EPH, 500, 1001, 0x12, &[],
    );
    let mut packet = decode(&frame);
    let config = test_config();
    let backends = test_backends();
    let event = PacketHandler::handle(
        &mut packet, &config, &backends, &mut cursor, &mut flows, false, &DRAWS, 3_000,
    )
    .unwrap();

    match event {
        PacketEvent::Forward(iface) => assert_eq!(iface.idx, INGRESS),
        other => panic!("expected Forward, got {:?}", other),
    }
    let out = packet.to_bytes();
    // reversed ethernet of the original SYN frame
    assert_eq!(&out[0..6], &CLIENT_MAC);
    assert_eq!(&out[6..12], &LB_MAC);
    // src 10.0.0.1:80, dst 192.168.1.100:44123
    assert_eq!(&out[26..30], &be32(LISTEN_IP));
    assert_eq!(&out[30..34], &be32(CLIENT_IP));
    assert_eq!(u16::from_be_bytes([out[34], out[35]]), 80);
    assert_eq!(u16::from_be_bytes([out[36], out[37]]), 44123);
    assert!(ip_checksum_ok(&out));
    assert!(tcp_checksum_ok(&out));
}

#[test]
fn syn_without_backends_is_dropped() {
    let mut flows = FlowTable::new();
    let mut cursor = 0u32;
    let frame = tcp_frame(
        CLIENT_MAC, LB_MAC, CLIENT_IP, LISTEN_IP, 44123, 80, 1000, 0, 0x02, &[],
    );
    let mut packet = decode(&frame);
    let config = test_config();
    let backends = BackendTable::new(); // every slot empty
    let result = PacketHandler::handle(
        &mut packet, &config, &backends, &mut cursor, &mut flows, false, &DRAWS, 1_000,
    );
    assert_eq!(result, Err(XlbErr::ErrNoBackends));
    assert_eq!(flows.len(), 0);
}

#[test]
fn shutdown_turns_data_segment_into_rst() {
    let mut flows = FlowTable::new();
    let mut cursor = 0u32;
    let payload = [0x55u8; 60];
    let frame = tcp_frame(
        CLIENT_MAC, LB_MAC, CLIENT_IP, LISTEN_IP, 44123, 80, 7000, 4200, 0x18, &payload,
    );
    let mut packet = decode(&frame);
    let config = test_config();
    let backends = test_backends();
    let event = PacketHandler::handle(
        &mut packet, &config, &backends, &mut cursor, &mut flows, true, &DRAWS, 1_000,
    )
    .unwrap();
    assert_eq!(event, PacketEvent::Return);

    let out = packet.to_bytes();
    // 14 eth + 20 ip + 20 tcp, payload truncated away
    assert_eq!(out.len(), 54);
    assert_eq!(u16::from_be_bytes([out[16], out[17]]), 40);
    // ethernet and IPs swapped back at the sender
    assert_eq!(&out[0..6], &CLIENT_MAC);
    assert_eq!(&out[6..12], &LB_MAC);
    assert_eq!(&out[26..30], &be32(LISTEN_IP));
    assert_eq!(&out[30..34], &be32(CLIENT_IP));
    // ports swapped
    assert_eq!(u16::from_be_bytes([out[34], out[35]]), 80);
    assert_eq!(u16::from_be_bytes([out[36], out[37]]), 44123);
    // incoming segment had ACK: SEQ = incoming ACK, ACK flag clear, RST set
    assert_eq!(u32::from_be_bytes([out[38], out[39], out[40], out[41]]), 4200);
    let flags = out[47];
    assert_eq!(flags & 0x04, 0x04, "RST set");
    assert_eq!(flags & 0x10, 0, "ACK clear");
    assert_eq!(flags & 0x02, 0, "SYN clear");
    assert_eq!(flags & 0x01, 0, "FIN clear");
    // window and urgent zeroed
    assert_eq!(u16::from_be_bytes([out[48], out[49]]), 0);
    assert_eq!(u16::from_be_bytes([out[52], out[53]]), 0);
    assert!(ip_checksum_ok(&out));
    assert!(tcp_checksum_ok(&out));
}

#[test]
fn rst_without_ack_uses_segment_length() {
    // incoming segment without ACK: SEQ = 0, ACK = seq + len + SYN
    let mut flows = FlowTable::new();
    let mut cursor = 0u32;
    let frame = tcp_frame(
        CLIENT_MAC, LB_MAC, CLIENT_IP, LISTEN_IP, 44123, 80, 9000, 0, 0x02, &[],
    );
    let mut packet = decode(&frame);
    let config = test_config();
    let backends = test_backends();
    let event = PacketHandler::handle(
        &mut packet, &config, &backends, &mut cursor, &mut flows, true, &DRAWS, 1_000,
    )
    .unwrap();
    assert_eq!(event, PacketEvent::Return);
    let out = packet.to_bytes();
    assert_eq!(u32::from_be_bytes([out[38], out[39], out[40], out[41]]), 0);
    // SEG.LEN of a bare SYN is 1
    assert_eq!(
        u32::from_be_bytes([out[42], out[43], out[44], out[45]]),
        9001
    );
    let flags = out[47];
    assert_eq!(flags & 0x04, 0x04, "RST set");
    assert_eq!(flags & 0x10, 0x10, "ACK set");
}

#[test]
fn fin_pair_closes_both_flows() {
    let mut flows = FlowTable::new();
    let mut cursor = 0u32;
    accept_syn(&mut flows, &mut cursor, 1_000);
    let config = test_config();
    let backends = test_backends();
    let sh = FlowKey::new(CLIENT_IP as u128, 44123).hash_key();
    let ch = FlowKey::new(BACKEND_IP as u128, EPH).hash_key();

    // client FIN
    let frame = tcp_frame(
        CLIENT_MAC, LB_MAC, CLIENT_IP, LISTEN_IP, 44123, 80, 1001, 501, 0x11, &[],
    );
    let mut packet = decode(&frame);
    PacketHandler::handle(
        &mut packet, &config, &backends, &mut cursor, &mut flows, false, &DRAWS, 2_000,
    )
    .unwrap();
    assert!(flows.lookup(sh).unwrap().fin);
    assert_eq!(flows.lookup(sh).unwrap().fin_both_ns, 0);

    // backend FIN
    let frame = tcp_frame(
        NEXT_HOP_MAC, IFACE_MAC, BACKEND_IP, LISTEN_IP, 8080, EPH, 501, 1002, 0x11, &[],
    );
    let mut packet = decode(&frame);
    let event = PacketHandler::handle(
        &mut packet, &config, &backends, &mut cursor, &mut flows, false, &DRAWS, 3_000,
    )
    .unwrap();
    assert!(matches!(event, PacketEvent::Forward(_)));

    let server = flows.lookup(sh).unwrap();
    let client = flows.lookup(ch).unwrap();
    assert_ne!(server.fin_both_ns, 0);
    assert_eq!(server.fin_both_ns, client.fin_both_ns);

    // a subsequent ACK on the same flow still forwards correctly
    let frame = tcp_frame(
        CLIENT_MAC, LB_MAC, CLIENT_IP, LISTEN_IP, 44123, 80, 1002, 502, 0x10, &[],
    );
    let mut packet = decode(&frame);
    let event = PacketHandler::handle(
        &mut packet, &config, &backends, &mut cursor, &mut flows, false, &DRAWS, 4_000,
    )
    .unwrap();
    match event {
        PacketEvent::Forward(iface) => assert_eq!(iface.idx, 3),
        other => panic!("expected Forward, got {:?}", other),
    }
}

#[test]
fn unknown_return_traffic_passes_through() {
    let mut flows = FlowTable::new();
    let mut cursor = 0u32;
    let frame = tcp_frame(
        NEXT_HOP_MAC, IFACE_MAC, BACKEND_IP, LISTEN_IP, 8080, 9999, 1, 1, 0x10, &[],
    );
    let mut packet = decode(&frame);
    let config = test_config();
    let backends = test_backends();
    let event = PacketHandler::handle(
        &mut packet, &config, &backends, &mut cursor, &mut flows, false, &DRAWS, 1_000,
    )
    .unwrap();
    assert_eq!(event, PacketEvent::Pass);
}

#[test]
fn orphaned_client_segment_is_an_error() {
    let mut flows = FlowTable::new();
    let mut cursor = 0u32;
    let frame = tcp_frame(
        CLIENT_MAC, LB_MAC, CLIENT_IP, LISTEN_IP, 44123, 80, 1001, 501, 0x10, &[],
    );
    let mut packet = decode(&frame);
    let config = test_config();
    let backends = test_backends();
    let result = PacketHandler::handle(
        &mut packet, &config, &backends, &mut cursor, &mut flows, false, &DRAWS, 1_000,
    );
    assert_eq!(result, Err(XlbErr::ErrOrphanedFlow));
}

#[test]
fn foreign_packets_pass_through() {
    let mut flows = FlowTable::new();
    let mut cursor = 0u32;
    // destination port matches no mapping
    let frame = tcp_frame(
        CLIENT_MAC, LB_MAC, CLIENT_IP, LISTEN_IP, 44123, 443, 1, 0, 0x02, &[],
    );
    let mut packet = decode(&frame);
    let config = test_config();
    let backends = test_backends();
    let event = PacketHandler::handle(
        &mut packet, &config, &backends, &mut cursor, &mut flows, false, &DRAWS, 1_000,
    )
    .unwrap();
    assert_eq!(event, PacketEvent::Pass);

    // right port, but addressed to another host on the same wire
    let frame = tcp_frame(
        CLIENT_MAC, LB_MAC, CLIENT_IP, 0x0a000002, 44123, 80, 1, 0, 0x02, &[],
    );
    let mut packet = decode(&frame);
    let event = PacketHandler::handle(
        &mut packet, &config, &backends, &mut cursor, &mut flows, false, &DRAWS, 1_000,
    )
    .unwrap();
    assert_eq!(event, PacketEvent::Pass);
}

#[test]
fn decoder_rejects_truncated_frames() {
    match Packet::new(&vec![0u8; 10], 0) {
        Err(XlbErr::ErrParseHdrEth) => {}
        other => panic!("expected ErrParseHdrEth, got {:?}", other),
    }
    // valid ethernet, truncated IP
    let mut frame = vec![0u8; 20];
    frame[12] = 0x08;
    frame[13] = 0x00;
    match Packet::new(&frame, 0) {
        Err(XlbErr::ErrParseHdrIp) => {}
        other => panic!("expected ErrParseHdrIp, got {:?}", other),
    }
}

#[test]
fn decoder_ignores_other_protocols() {
    // ARP ethertype
    let mut frame = vec![0u8; 64];
    frame[12] = 0x08;
    frame[13] = 0x06;
    assert!(matches!(Packet::new(&frame, 0), Ok(None)));
}

#[test]
fn decoder_reads_header_fields() {
    let frame = tcp_frame(
        CLIENT_MAC, LB_MAC, CLIENT_IP, LISTEN_IP, 44123, 80, 1000, 0, 0x02, b"abc",
    );
    let packet = decode(&frame);
    assert_eq!(packet.src_ip(), CLIENT_IP as u128);
    assert_eq!(packet.dst_ip(), LISTEN_IP as u128);
    assert_eq!(packet.src_port(), 44123);
    assert_eq!(packet.dst_port(), 80);
    assert_eq!(packet.ip_total_len(), 43);
    assert_eq!(packet.size(), frame.len() as u64);
    match (&packet.ip, &packet.l4) {
        (IpHeader::Ipv4(ih), ProtoHeader::Tcp(t)) => {
            assert_eq!(ih.ttl, 64);
            assert!(t.is_syn());
            assert!(!t.is_fin());
        }
        _ => panic!("expected IPv4 TCP"),
    }
    // re-encoding reproduces the frame
    assert_eq!(packet.to_bytes(), frame);
}

#[test]
fn exhausted_ephemeral_ports_answer_with_rst() {
    let mut flows = FlowTable::new();
    let mut cursor = 0u32;
    // occupy the keys of all five draws for this backend
    for d in DRAWS {
        let port = (d % 50000) as u16 + 5000;
        let h = FlowKey::new(BACKEND_IP as u128, port).hash_key();
        let mut f = xlb::types::Flow {
            direction: xlb::types::FlowDirection::ToClient,
            client_ip: 0,
            backend_ip: BACKEND_IP as u128,
            src_ip: 0,
            src_port: 0,
            dst_port: 0,
            dst_ip: 0,
            dst_mac: [0; 6],
            src_iface_idx: 0,
            src_mac: [0; 6],
            bytes_transfer: 0,
            packets_transfer: 0,
            created_at_ns: 0,
            last_seen_ns: 0,
            fin: false,
            fin_is_src: false,
            fin_both_ns: 0,
            rst_ns: 0,
            rst_is_src: false,
            counter_flow_key_hash: 0,
        };
        f.src_port = port;
        flows.insert(h, f).unwrap();
    }
    let frame = tcp_frame(
        CLIENT_MAC, LB_MAC, CLIENT_IP, LISTEN_IP, 44123, 80, 1000, 0, 0x02, &[],
    );
    let mut packet = decode(&frame);
    let config = test_config();
    let backends = test_backends();
    let event = PacketHandler::handle(
        &mut packet, &config, &backends, &mut cursor, &mut flows, false, &DRAWS, 1_000,
    )
    .unwrap();
    // the SYN is answered with a RST back at the client
    assert_eq!(event, PacketEvent::Return);
    let out = packet.to_bytes();
    assert_eq!(&out[0..6], &CLIENT_MAC);
    assert_eq!(out[47] & 0x04, 0x04, "RST set");
    assert!(ip_checksum_ok(&out));
    assert!(tcp_checksum_ok(&out));
    // no new flows were inserted
    assert_eq!(flows.len(), 5);
}
