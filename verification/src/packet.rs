//! The decoded packet: typed header views over a raw frame, the
//! bounds-checked decoder, the encoder, and the two transforms of the
//! fast path — the NAT rewrite and the RFC 793 RST response.

use crate::checksum::checksum_ok;
use crate::config::{IpVersion, Proto};
use crate::errors::XlbErr;
use crate::headers::{
    calc_seg_len_spec, ipv4_words, payload_words, tcp_checksum_words, tcp_header_words,
    tcp_pseudo_words, EthHeader, Ipv4Header, Ipv6Header, TcpHeader, UdpHeader, ETHERTYPE_IPV4,
    ETHERTYPE_IPV6,
};
use crate::mac::MacAddr;
use vstd::prelude::*;

verus! {

/// The network-layer header of a decoded packet.
#[derive(Debug, Clone, Copy, PartialEq, Eq)]
pub enum IpHeader {
    Ipv4(Ipv4Header),
    Ipv6(Ipv6Header),
}

/// The transport-layer header of a decoded packet.
#[derive(Debug, Clone, Copy, PartialEq, Eq)]
pub enum ProtoHeader {
    Tcp(TcpHeader),
    Udp(UdpHeader),
}

/// Big-endian 16-bit read at `i`.
pub open spec fn be16(b: Seq<u8>, i: int) -> u16 {
    ((b[i] as u16) * 0x100 + b[i + 1]) as u16
}

/// Big-endian 32-bit read at `i`.
pub open spec fn be32(b: Seq<u8>, i: int) -> u32 {
    ((b[i] as u32) * 0x100_0000 + (b[i + 1] as u32) * 0x1_0000 + (b[i + 2] as u32) * 0x100 + (b[i
        + 3] as u32)) as u32
}

/// Big-endian 128-bit read at `i` (sixteen bytes).
pub open spec fn be128(b: Seq<u8>, i: int) -> u128 {
    ((be32(b, i) as u128) * 0x1_0000_0000_0000_0000_0000_0000 + (be32(b, i + 4) as u128)
        * 0x1_0000_0000_0000_0000 + (be32(b, i + 8) as u128) * 0x1_0000_0000 + (be32(
        b,
        i + 12,
    ) as u128)) as u128
}

/// The ethernet header a frame starts with.
pub open spec fn eth_of(b: Seq<u8>) -> EthHeader {
    EthHeader {
        dst_mac: [b[0], b[1], b[2], b[3], b[4], b[5]],
        src_mac: [b[6], b[7], b[8], b[9], b[10], b[11]],
        ether_type: be16(b, 12),
    }
}

/// The IPv4 header at offset 14 of a frame.
pub open spec fn ipv4_of(b: Seq<u8>) -> Ipv4Header {
    Ipv4Header {
        tos: b[15],
        total_len: be16(b, 16),
        ident: be16(b, 18),
        flags_frag: be16(b, 20),
        ttl: b[22],
        proto: b[23],
        check: be16(b, 24),
        src: be32(b, 26),
        dst: be32(b, 30),
    }
}

/// The IPv6 header at offset 14 of a frame.
pub open spec fn ipv6_of(b: Seq<u8>) -> Ipv6Header {
    Ipv6Header { payload_len: be16(b, 18), next_hdr: b[20], src: be128(b, 22), dst: be128(b, 38) }
}

/// The fixed TCP header at offset `o` of a frame.
pub open spec fn tcp_of(b: Seq<u8>, o: int) -> TcpHeader {
    TcpHeader {
        src_port: be16(b, o),
        dst_port: be16(b, o + 2),
        seq_no: be32(b, o + 4),
        ack_no: be32(b, o + 8),
        data_off: b[o + 12],
        flags: b[o + 13],
        window: be16(b, o + 14),
        check: be16(b, o + 16),
        urg_ptr: be16(b, o + 18),
    }
}

/// The UDP header at offset `o` of a frame.
pub open spec fn udp_of(b: Seq<u8>, o: int) -> UdpHeader {
    UdpHeader {
        src_port: be16(b, o),
        dst_port: be16(b, o + 2),
        len: be16(b, o + 4),
        check: be16(b, o + 6),
    }
}

/// A decoded packet: typed headers, the transport payload (options and
/// data beyond the fixed header, for IPv4), the frame length on the
/// wire and the interface the frame arrived on.
#[derive(Debug)]
pub struct Packet {
    pub eth: EthHeader,
    pub ip: IpHeader,
    pub l4: ProtoHeader,
    pub payload: Vec<u8>,
    pub frame_len: usize,
    pub ingress_ifindex: u16,
}

impl Packet {
    /// Structural soundness the decoder establishes and the transforms
    /// preserve: lengths in the IPv4 header agree with the payload
    /// held, and the frame is long enough to carry it all.
    pub open spec fn wf(&self) -> bool {
        match self.ip {
            IpHeader::Ipv4(ih) => {
                &&& self.eth.ether_type == ETHERTYPE_IPV4
                &&& self.frame_len >= 14 + ih.total_len
                &&& match self.l4 {
                    ProtoHeader::Tcp(t) => {
                        &&& ih.proto == 6
                        &&& ih.total_len == 40 + self.payload@.len()
                        &&& t.spec_doff() >= 5
                        &&& 20 + (t.spec_doff() as int) * 4 <= ih.total_len
                    },
                    ProtoHeader::Udp(_) => ih.proto == 17 && ih.total_len == 28
                        + self.payload@.len(),
                }
            },
            IpHeader::Ipv6(ih) => {
                &&& self.eth.ether_type == ETHERTYPE_IPV6
                &&& match self.l4 {
                    ProtoHeader::Tcp(_) => ih.next_hdr == 6 && self.frame_len >= 74,
                    ProtoHeader::Udp(_) => ih.next_hdr == 17 && self.frame_len >= 62,
                }
            },
        }
    }

    pub fn ip_version(&self) -> (r: IpVersion)
        ensures
            r == (match self.ip {
                IpHeader::Ipv4(_) => IpVersion::Ipv4,
                IpHeader::Ipv6(_) => IpVersion::Ipv6,
            }),
    {
        match self.ip {
            IpHeader::Ipv4(_) => IpVersion::Ipv4,
            IpHeader::Ipv6(_) => IpVersion::Ipv6,
        }
    }

    pub fn proto(&self) -> (r: Proto)
        ensures
            r == (match self.l4 {
                ProtoHeader::Tcp(_) => Proto::Tcp,
                ProtoHeader::Udp(_) => Proto::Udp,
            }),
    {
        match self.l4 {
            ProtoHeader::Tcp(_) => Proto::Tcp,
            ProtoHeader::Udp(_) => Proto::Udp,
        }
    }

    /// Source IP in host order; IPv6 addresses use the full 128 bits.
    pub open spec fn spec_src_ip(&self) -> u128 {
        match self.ip {
            IpHeader::Ipv4(ih) => ih.src as u128,
            IpHeader::Ipv6(ih) => ih.src,
        }
    }

    pub open spec fn spec_dst_ip(&self) -> u128 {
        match self.ip {
            IpHeader::Ipv4(ih) => ih.dst as u128,
            IpHeader::Ipv6(ih) => ih.dst,
        }
    }

    pub fn src_ip(&self) -> (r: u128)
        ensures
            r == self.spec_src_ip(),
    {
        match &self.ip {
            IpHeader::Ipv4(ih) => ih.src as u128,
            IpHeader::Ipv6(ih) => ih.src,
        }
    }

    pub fn dst_ip(&self) -> (r: u128)
        ensures
            r == self.spec_dst_ip(),
    {
        match &self.ip {
            IpHeader::Ipv4(ih) => ih.dst as u128,
            IpHeader::Ipv6(ih) => ih.dst,
        }
    }

    pub open spec fn spec_src_port(&self) -> u16 {
        match self.l4 {
            ProtoHeader::Tcp(t) => t.src_port,
            ProtoHeader::Udp(u) => u.src_port,
        }
    }

    pub open spec fn spec_dst_port(&self) -> u16 {
        match self.l4 {
            ProtoHeader::Tcp(t) => t.dst_port,
            ProtoHeader::Udp(u) => u.dst_port,
        }
    }

    pub fn src_port(&self) -> (r: u16)
        ensures
            r == self.spec_src_port(),
    {
        match &self.l4 {
            ProtoHeader::Tcp(t) => t.src_port,
            ProtoHeader::Udp(u) => u.src_port,
        }
    }

    pub fn dst_port(&self) -> (r: u16)
        ensures
            r == self.spec_dst_port(),
    {
        match &self.l4 {
            ProtoHeader::Tcp(t) => t.dst_port,
            ProtoHeader::Udp(u) => u.dst_port,
        }
    }

    pub fn ip_total_len(&self) -> (r: u16)
        ensures
            r == (match self.ip {
                IpHeader::Ipv4(ih) => ih.total_len,
                IpHeader::Ipv6(_) => 0u16,
            }),
    {
        match &self.ip {
            IpHeader::Ipv4(ih) => ih.total_len,
            IpHeader::Ipv6(_) => 0,
        }
    }

    /// The full frame size on the wire, padding included.
    pub fn size(&self) -> (r: u64)
        ensures
            r == self.frame_len,
    {
        self.frame_len as u64
    }
}

/// An IPv4 frame is structurally sound at the network layer: the
/// version/ihl byte names a plain 20-byte header and the total length
/// covers the header and fits the frame.
pub open spec fn ipv4_frame_ok(b: Seq<u8>) -> bool {
    &&& b.len() >= 34
    &&& b[14] == 0x45
    &&& ipv4_of(b).total_len >= 20
    &&& 14 + ipv4_of(b).total_len <= b.len()
}

/// An IPv4 TCP frame is structurally sound at the transport layer.
pub open spec fn ipv4_tcp_frame_ok(b: Seq<u8>) -> bool {
    &&& b.len() >= 54
    &&& tcp_of(b, 34).spec_doff() >= 5
    &&& 20 + (tcp_of(b, 34).spec_doff() as int) * 4 <= ipv4_of(b).total_len
    &&& ipv4_of(b).total_len >= 40
}

fn read_be16(b: &Vec<u8>, i: usize) -> (r: u16)
    requires
        i + 2 <= b@.len(),
    ensures
        r == be16(b@, i as int),
{
    let _n: usize = b.len();
    (b[i] as u16) * 0x100 + b[i + 1] as u16
}

fn read_be32(b: &Vec<u8>, i: usize) -> (r: u32)
    requires
        i + 4 <= b@.len(),
    ensures
        r == be32(b@, i as int),
{
    let _n: usize = b.len();
    (b[i] as u32) * 0x100_0000 + (b[i + 1] as u32) * 0x1_0000 + (b[i + 2] as u32) * 0x100 + (b[i
        + 3] as u32)
}

fn read_be128(b: &Vec<u8>, i: usize) -> (r: u128)
    requires
        i + 16 <= b@.len(),
    ensures
        r == be128(b@, i as int),
{
    let _n: usize = b.len();
    (read_be32(b, i) as u128) * 0x1_0000_0000_0000_0000_0000_0000 + (read_be32(
        b,
        i + 4,
    ) as u128) * 0x1_0000_0000_0000_0000 + (read_be32(b, i + 8) as u128) * 0x1_0000_0000
        + (read_be32(b, i + 12) as u128)
}

fn read_mac(b: &Vec<u8>, i: usize) -> (r: [u8; 6])
    requires
        i + 6 <= b@.len(),
    ensures
        r == [b@[i as int], b@[i + 1], b@[i + 2], b@[i + 3], b@[i + 4], b@[i + 5]],
{
    let _n: usize = b.len();
    [b[i], b[i + 1], b[i + 2], b[i + 3], b[i + 4], b[i + 5]]
}

fn read_tcp(b: &Vec<u8>, o: usize) -> (r: TcpHeader)
    requires
        o + 20 <= b@.len(),
    ensures
        r == tcp_of(b@, o as int),
{
    let _n: usize = b.len();
    TcpHeader {
        src_port: read_be16(b, o),
        dst_port: read_be16(b, o + 2),
        seq_no: read_be32(b, o + 4),
        ack_no: read_be32(b, o + 8),
        data_off: b[o + 12],
        flags: b[o + 13],
        window: read_be16(b, o + 14),
        check: read_be16(b, o + 16),
        urg_ptr: read_be16(b, o + 18),
    }
}

fn copy_range(b: &Vec<u8>, from: usize, to: usize) -> (r: Vec<u8>)
    requires
        from <= to <= b@.len(),
    ensures
        r@ == b@.subrange(from as int, to as int),
{
    let mut out: Vec<u8> = Vec::new();
    let mut i: usize = from;
    while i < to
        invariant
            from <= i <= to <= b@.len(),
            out@ == b@.subrange(from as int, i as int),
        decreases to - i,
    {
        out.push(b[i]);
        proof {
            assert(out@ =~= b@.subrange(from as int, i + 1));
        }
        i = i + 1;
    }
    out
}

impl Packet {
    /// Decode a raw frame into typed header views with explicit bounds
    /// checks before every read. Frames of other ethertypes or IP
    /// protocols are not ours and decode to `None`; structurally
    /// invalid headers fail with a parse error.
    pub fn new(bytes: &Vec<u8>, ingress_ifindex: u16) -> (r: Result<Option<Packet>, XlbErr>)
        ensures
            ({
                let b = bytes@;
                if b.len() < 14 {
                    r == Result::<Option<Packet>, XlbErr>::Err(XlbErr::ErrParseHdrEth)
                } else if be16(b, 12) == ETHERTYPE_IPV4 {
                    if !ipv4_frame_ok(b) {
                        r == Result::<Option<Packet>, XlbErr>::Err(XlbErr::ErrParseHdrIp)
                    } else if ipv4_of(b).proto == 6 {
                        if !ipv4_tcp_frame_ok(b) {
                            r == Result::<Option<Packet>, XlbErr>::Err(XlbErr::ErrParseHdrProto)
                        } else {
                            r matches Ok(Some(p)) && p.eth == eth_of(b) && p.ip == IpHeader::Ipv4(
                                ipv4_of(b),
                            ) && p.l4 == ProtoHeader::Tcp(tcp_of(b, 34)) && p.payload@
                                == b.subrange(54, 14 + ipv4_of(b).total_len) && p.frame_len
                                == b.len() && p.ingress_ifindex == ingress_ifindex && p.wf()
                        }
                    } else if ipv4_of(b).proto == 17 {
                        if !(b.len() >= 42 && ipv4_of(b).total_len >= 28) {
                            r == Result::<Option<Packet>, XlbErr>::Err(XlbErr::ErrParseHdrProto)
                        } else {
                            r matches Ok(Some(p)) && p.eth == eth_of(b) && p.ip == IpHeader::Ipv4(
                                ipv4_of(b),
                            ) && p.l4 == ProtoHeader::Udp(udp_of(b, 34)) && p.payload@
                                == b.subrange(42, 14 + ipv4_of(b).total_len) && p.frame_len
                                == b.len() && p.ingress_ifindex == ingress_ifindex && p.wf()
                        }
                    } else {
                        r == Result::<Option<Packet>, XlbErr>::Ok(None::<Packet>)
                    }
                } else if be16(b, 12) == ETHERTYPE_IPV6 {
                    if !(b.len() >= 54 && b[14] / 16 == 6) {
                        r == Result::<Option<Packet>, XlbErr>::Err(XlbErr::ErrParseHdrIp)
                    } else if ipv6_of(b).next_hdr == 6 {
                        if b.len() < 74 {
                            r == Result::<Option<Packet>, XlbErr>::Err(XlbErr::ErrParseHdrProto)
                        } else {
                            r matches Ok(Some(p)) && p.eth == eth_of(b) && p.ip == IpHeader::Ipv6(
                                ipv6_of(b),
                            ) && p.l4 == ProtoHeader::Tcp(tcp_of(b, 54)) && p.payload@
                                == Seq::<u8>::empty() && p.frame_len == b.len()
                                && p.ingress_ifindex == ingress_ifindex && p.wf()
                        }
                    } else if ipv6_of(b).next_hdr == 17 {
                        if b.len() < 62 {
                            r == Result::<Option<Packet>, XlbErr>::Err(XlbErr::ErrParseHdrProto)
                        } else {
                            r matches Ok(Some(p)) && p.eth == eth_of(b) && p.ip == IpHeader::Ipv6(
                                ipv6_of(b),
                            ) && p.l4 == ProtoHeader::Udp(udp_of(b, 54)) && p.payload@
                                == Seq::<u8>::empty() && p.frame_len == b.len()
                                && p.ingress_ifindex == ingress_ifindex && p.wf()
                        }
                    } else {
                        r == Result::<Option<Packet>, XlbErr>::Ok(None::<Packet>)
                    }
                } else {
                    r == Result::<Option<Packet>, XlbErr>::Ok(None::<Packet>)
                }
            }),
    {
        if bytes.len() < 14 {
            return Err(XlbErr::ErrParseHdrEth);
        }
        let eth = EthHeader {
            dst_mac: read_mac(bytes, 0),
            src_mac: read_mac(bytes, 6),
            ether_type: read_be16(bytes, 12),
        };
        if eth.ether_type == ETHERTYPE_IPV4 {
            if bytes.len() < 34 {
                return Err(XlbErr::ErrParseHdrIp);
            }
            let ih = Ipv4Header {
                tos: bytes[15],
                total_len: read_be16(bytes, 16),
                ident: read_be16(bytes, 18),
                flags_frag: read_be16(bytes, 20),
                ttl: bytes[22],
                proto: bytes[23],
                check: read_be16(bytes, 24),
                src: read_be32(bytes, 26),
                dst: read_be32(bytes, 30),
            };
            if bytes[14] != 0x45 || ih.total_len < 20 || 14 + ih.total_len as usize > bytes.len()
            {
                return Err(XlbErr::ErrParseHdrIp);
            }
            if ih.proto == 6 {
                if bytes.len() < 54 {
                    return Err(XlbErr::ErrParseHdrProto);
                }
                let t = read_tcp(bytes, 34);
                if t.doff() < 5 || 20 + (t.doff() as u16) * 4 > ih.total_len || ih.total_len < 40
                {
                    return Err(XlbErr::ErrParseHdrProto);
                }
                let payload = copy_range(bytes, 54, 14 + ih.total_len as usize);
                Ok(Some(Packet {
                    eth,
                    ip: IpHeader::Ipv4(ih),
                    l4: ProtoHeader::Tcp(t),
                    payload,
                    frame_len: bytes.len(),
                    ingress_ifindex,
                }))
            } else if ih.proto == 17 {
                if bytes.len() < 42 || ih.total_len < 28 {
                    return Err(XlbErr::ErrParseHdrProto);
                }
                let u = UdpHeader {
                    src_port: read_be16(bytes, 34),
                    dst_port: read_be16(bytes, 36),
                    len: read_be16(bytes, 38),
                    check: read_be16(bytes, 40),
                };
                let payload = copy_range(bytes, 42, 14 + ih.total_len as usize);
                Ok(Some(Packet {
                    eth,
                    ip: IpHeader::Ipv4(ih),
                    l4: ProtoHeader::Udp(u),
                    payload,
                    frame_len: bytes.len(),
                    ingress_ifindex,
                }))
            } else {
                Ok(None)
            }
        } else if eth.ether_type == ETHERTYPE_IPV6 {
            if bytes.len() < 54 || bytes[14] / 16 != 6 {
                return Err(XlbErr::ErrParseHdrIp);
            }
            let ih = Ipv6Header {
                payload_len: read_be16(bytes, 18),
                next_hdr: bytes[20],
                src: read_be128(bytes, 22),
                dst: read_be128(bytes, 38),
            };
            if ih.next_hdr == 6 {
                if bytes.len() < 74 {
                    return Err(XlbErr::ErrParseHdrProto);
                }
                let t = read_tcp(bytes, 54);
                Ok(Some(Packet {
                    eth,
                    ip: IpHeader::Ipv6(ih),
                    l4: ProtoHeader::Tcp(t),
                    payload: Vec::new(),
                    frame_len: bytes.len(),
                    ingress_ifindex,
                }))
            } else if ih.next_hdr == 17 {
                if bytes.len() < 62 {
                    return Err(XlbErr::ErrParseHdrProto);
                }
                let u = UdpHeader {
                    src_port: read_be16(bytes, 54),
                    dst_port: read_be16(bytes, 56),
                    len: read_be16(bytes, 58),
                    check: read_be16(bytes, 60),
                };
                Ok(Some(Packet {
                    eth,
                    ip: IpHeader::Ipv6(ih),
                    l4: ProtoHeader::Udp(u),
                    payload: Vec::new(),
                    frame_len: bytes.len(),
                    ingress_ifindex,
                }))
            } else {
                Ok(None)
            }
        } else {
            Ok(None)
        }
    }
}

/// The fourteen bytes of an ethernet header on the wire.
pub open spec fn eth_bytes(e: EthHeader) -> Seq<u8> {
    seq![
        e.dst_mac[0],
        e.dst_mac[1],
        e.dst_mac[2],
        e.dst_mac[3],
        e.dst_mac[4],
        e.dst_mac[5],
        e.src_mac[0],
        e.src_mac[1],
        e.src_mac[2],
        e.src_mac[3],
        e.src_mac[4],
        e.src_mac[5],
        (e.ether_type / 0x100) as u8,
        (e.ether_type % 0x100) as u8,
    ]
}

/// The twenty bytes of a plain IPv4 header on the wire.
pub open spec fn ipv4_bytes(h: Ipv4Header) -> Seq<u8> {
    seq![
        0x45u8,
        h.tos,
        (h.total_len / 0x100) as u8,
        (h.total_len % 0x100) as u8,
        (h.ident / 0x100) as u8,
        (h.ident % 0x100) as u8,
        (h.flags_frag / 0x100) as u8,
        (h.flags_frag % 0x100) as u8,
        h.ttl,
        h.proto,
        (h.check / 0x100) as u8,
        (h.check % 0x100) as u8,
        ((h.src / 0x100_0000) % 0x100) as u8,
        ((h.src / 0x1_0000) % 0x100) as u8,
        ((h.src / 0x100) % 0x100) as u8,
        (h.src % 0x100) as u8,
        ((h.dst / 0x100_0000) % 0x100) as u8,
        ((h.dst / 0x1_0000) % 0x100) as u8,
        ((h.dst / 0x100) % 0x100) as u8,
        (h.dst % 0x100) as u8,
    ]
}

/// The twenty bytes of a fixed TCP header on the wire.
pub open spec fn tcp_bytes(t: TcpHeader) -> Seq<u8> {
    seq![
        (t.src_port / 0x100) as u8,
        (t.src_port % 0x100) as u8,
        (t.dst_port / 0x100) as u8,
        (t.dst_port % 0x100) as u8,
        ((t.seq_no / 0x100_0000) % 0x100) as u8,
        ((t.seq_no / 0x1_0000) % 0x100) as u8,
        ((t.seq_no / 0x100) % 0x100) as u8,
        (t.seq_no % 0x100) as u8,
        ((t.ack_no / 0x100_0000) % 0x100) as u8,
        ((t.ack_no / 0x1_0000) % 0x100) as u8,
        ((t.ack_no / 0x100) % 0x100) as u8,
        (t.ack_no % 0x100) as u8,
        t.data_off,
        t.flags,
        (t.window / 0x100) as u8,
        (t.window % 0x100) as u8,
        (t.check / 0x100) as u8,
        (t.check % 0x100) as u8,
        (t.urg_ptr / 0x100) as u8,
        (t.urg_ptr % 0x100) as u8,
    ]
}

/// The eight bytes of a UDP header on the wire.
pub open spec fn udp_bytes(u: UdpHeader) -> Seq<u8> {
    seq![
        (u.src_port / 0x100) as u8,
        (u.src_port % 0x100) as u8,
        (u.dst_port / 0x100) as u8,
        (u.dst_port % 0x100) as u8,
        (u.len / 0x100) as u8,
        (u.len % 0x100) as u8,
        (u.check / 0x100) as u8,
        (u.check % 0x100) as u8,
    ]
}

fn push_be16(out: &mut Vec<u8>, v: u16)
    ensures
        final(out)@ == old(out)@ + seq![(v / 0x100) as u8, (v % 0x100) as u8],
{
    out.push((v / 0x100) as u8);
    out.push((v % 0x100) as u8);
    proof {
        assert(out@ =~= old(out)@ + seq![(v / 0x100) as u8, (v % 0x100) as u8]);
    }
}

fn push_be32(out: &mut Vec<u8>, v: u32)
    ensures
        final(out)@ == old(out)@ + seq![
            ((v / 0x100_0000) % 0x100) as u8,
            ((v / 0x1_0000) % 0x100) as u8,
            ((v / 0x100) % 0x100) as u8,
            (v % 0x100) as u8,
        ],
{
    out.push(((v / 0x100_0000) % 0x100) as u8);
    out.push(((v / 0x1_0000) % 0x100) as u8);
    out.push(((v / 0x100) % 0x100) as u8);
    out.push((v % 0x100) as u8);
    proof {
        assert(out@ =~= old(out)@ + seq![
            ((v / 0x100_0000) % 0x100) as u8,
            ((v / 0x1_0000) % 0x100) as u8,
            ((v / 0x100) % 0x100) as u8,
            (v % 0x100) as u8,
        ]);
    }
}

fn push_mac(out: &mut Vec<u8>, m: [u8; 6])
    ensures
        final(out)@ == old(out)@ + seq![m[0], m[1], m[2], m[3], m[4], m[5]],
{
    out.push(m[0]);
    out.push(m[1]);
    out.push(m[2]);
    out.push(m[3]);
    out.push(m[4]);
    out.push(m[5]);
    proof {
        assert(out@ =~= old(out)@ + seq![m[0], m[1], m[2], m[3], m[4], m[5]]);
    }
}

/// What the RST responder leaves behind for an IPv4 TCP packet:
/// addresses and ports swapped back at the sender, RFC 793 sequence
/// numbers, only RST (plus ACK when the segment had none) set, the
/// payload truncated to the headers, both checksums valid.
pub open spec fn rst_transform_spec(p: Packet, q: Packet) -> bool {
    match (p.ip, p.l4) {
        (IpHeader::Ipv4(ih), ProtoHeader::Tcp(t)) => {
            let tcp_len = (t.spec_doff() as int) * 4;
            &&& q.wf()
            &&& q.frame_len == p.frame_len
            &&& q.ingress_ifindex == p.ingress_ifindex
            &&& q.eth == (EthHeader { src_mac: p.eth.dst_mac, dst_mac: p.eth.src_mac, ..p.eth })
            &&& q.ip matches IpHeader::Ipv4(nih) && nih == (Ipv4Header {
                src: ih.dst,
                dst: ih.src,
                total_len: ((20 + tcp_len) as u16),
                check: nih.check,
                ..ih
            }) && checksum_ok(ipv4_words(nih))
            &&& q.l4 matches ProtoHeader::Tcp(nt) && nt == (TcpHeader {
                src_port: t.dst_port,
                dst_port: t.src_port,
                seq_no: if t.spec_is_ack() {
                    t.ack_no
                } else {
                    0
                },
                ack_no: if t.spec_is_ack() {
                    t.ack_no
                } else {
                    ((t.seq_no + calc_seg_len_spec(t, ih.total_len, 20)) % 0x1_0000_0000) as u32
                },
                flags: TcpHeader::spec_rst_flags(t.flags, !t.spec_is_ack()),
                window: 0,
                urg_ptr: 0,
                check: nt.check,
                ..t
            }) && checksum_ok(
                tcp_pseudo_words(ih.dst, ih.src, (tcp_len as u16)) + tcp_header_words(nt),
            )
            &&& q.payload@ == p.payload@.subrange(0, tcp_len - 20)
        },
        _ => false,
    }
}

/// What the NAT rewrite leaves behind for an IPv4 TCP packet with
/// in-range addresses: both MACs, both IPs and both ports rewritten,
/// the IP header checksum valid, and TCP checksum validity carried
/// over from the pre-rewrite segment.
pub open spec fn reroute_transform_spec(
    p: Packet,
    q: Packet,
    src_mac: [u8; 6],
    dst_mac: [u8; 6],
    src_ip: u128,
    dst_ip: u128,
    src_port: u16,
    dst_port: u16,
) -> bool {
    match (p.ip, p.l4) {
        (IpHeader::Ipv4(ih), ProtoHeader::Tcp(t)) => {
            &&& q.wf()
            &&& q.frame_len == p.frame_len
            &&& q.ingress_ifindex == p.ingress_ifindex
            &&& q.payload@ == p.payload@
            &&& q.eth == (EthHeader { src_mac: src_mac, dst_mac: dst_mac, ..p.eth })
            &&& q.ip matches IpHeader::Ipv4(nih) && nih == (Ipv4Header {
                src: src_ip as u32,
                dst: dst_ip as u32,
                check: nih.check,
                ..ih
            }) && checksum_ok(ipv4_words(nih))
            &&& q.l4 matches ProtoHeader::Tcp(nt) && nt == (TcpHeader {
                src_port: src_port,
                dst_port: dst_port,
                check: nt.check,
                ..t
            }) && (checksum_ok(tcp_checksum_words(ih.src, ih.dst, t, p.payload@))
                ==> checksum_ok(
                tcp_checksum_words(src_ip as u32, dst_ip as u32, nt, p.payload@),
            ))
        },
        _ => false,
    }
}

impl Packet {
    /// Serialize an IPv4 packet back into wire bytes: headers followed
    /// by the held payload. The result carries exactly the IP total
    /// length plus the ethernet header; frame padding is not restored.
    pub fn to_bytes(&self) -> (r: Vec<u8>)
        requires
            self.ip is Ipv4,
    ensures
            ({
                let l4b = match self.l4 {
                    ProtoHeader::Tcp(t) => tcp_bytes(t),
                    ProtoHeader::Udp(u) => udp_bytes(u),
                };
                r@ == eth_bytes(self.eth) + ipv4_bytes(self.ip->Ipv4_0) + l4b + self.payload@
            }),
    {
        let mut out: Vec<u8> = Vec::new();
        push_mac(&mut out, self.eth.dst_mac);
        push_mac(&mut out, self.eth.src_mac);
        push_be16(&mut out, self.eth.ether_type);
        proof {
            assert(out@ =~= eth_bytes(self.eth));
        }
        let ih = match &self.ip {
            IpHeader::Ipv4(ih) => *ih,
            IpHeader::Ipv6(_) => {
                proof {
                    assert(false);
                }
                Ipv4Header {
                    tos: 0,
                    total_len: 0,
                    ident: 0,
                    flags_frag: 0,
                    ttl: 0,
                    proto: 0,
                    check: 0,
                    src: 0,
                    dst: 0,
                }
            },
        };
        out.push(0x45);
        out.push(ih.tos);
        push_be16(&mut out, ih.total_len);
        push_be16(&mut out, ih.ident);
        push_be16(&mut out, ih.flags_frag);
        out.push(ih.ttl);
        out.push(ih.proto);
        push_be16(&mut out, ih.check);
        push_be32(&mut out, ih.src);
        push_be32(&mut out, ih.dst);
        proof {
            assert(out@ =~= eth_bytes(self.eth) + ipv4_bytes(ih));
        }
        match &self.l4 {
            ProtoHeader::Tcp(t) => {
                push_be16(&mut out, t.src_port);
                push_be16(&mut out, t.dst_port);
                push_be32(&mut out, t.seq_no);
                push_be32(&mut out, t.ack_no);
                out.push(t.data_off);
                out.push(t.flags);
                push_be16(&mut out, t.window);
                push_be16(&mut out, t.check);
                push_be16(&mut out, t.urg_ptr);
                proof {
                    assert(out@ =~= eth_bytes(self.eth) + ipv4_bytes(ih) + tcp_bytes(*t));
                }
            },
            ProtoHeader::Udp(u) => {
                push_be16(&mut out, u.src_port);
                push_be16(&mut out, u.dst_port);
                push_be16(&mut out, u.len);
                push_be16(&mut out, u.check);
                proof {
                    assert(out@ =~= eth_bytes(self.eth) + ipv4_bytes(ih) + udp_bytes(*u));
                }
            },
        }
        let ghost before_payload = out@;
        let mut i: usize = 0;
        while i < self.payload.len()
            invariant
                i <= self.payload@.len(),
                out@ == before_payload + self.payload@.subrange(0, i as int),
            decreases self.payload@.len() - i,
        {
            out.push(self.payload[i]);
            proof {
                assert(out@ =~= before_payload + self.payload@.subrange(0, i + 1));
            }
            i = i + 1;
        }
        proof {
            assert(self.payload@.subrange(0, self.payload@.len() as int) =~= self.payload@);
        }
        out
    }

    /// Rewrite the packet headers to reroute it: both ethernet
    /// addresses, both IPv4 addresses (with a full header-checksum
    /// recompute) and both TCP ports (with a one-pass RFC 1624
    /// checksum update). IPv6 and UDP are not yet served.
    pub fn reroute(
        &mut self,
        src_mac_addr: &MacAddr,
        dst_mac_addr: &MacAddr,
        src_ip_addr: u128,
        dst_ip_addr: u128,
        src_port: u16,
        dst_port: u16,
    ) -> (r: Result<(), XlbErr>)
        requires
            old(self).wf(),
        ensures
            final(self).wf(),
            final(self).payload@ == old(self).payload@,
            final(self).frame_len == old(self).frame_len,
            final(self).ingress_ifindex == old(self).ingress_ifindex,
            ({
                let p = *old(self);
                match (p.ip, p.l4) {
                    (IpHeader::Ipv4(ih), ProtoHeader::Tcp(t)) => {
                        if src_ip_addr > 0xffff_ffff || dst_ip_addr > 0xffff_ffff {
                            r == Result::<(), XlbErr>::Err(XlbErr::ErrInvalidIpVal)
                        } else {
                            r == Result::<(), XlbErr>::Ok(()) && reroute_transform_spec(
                                p,
                                *final(self),
                                src_mac_addr.spec_bytes(),
                                dst_mac_addr.spec_bytes(),
                                src_ip_addr,
                                dst_ip_addr,
                                src_port,
                                dst_port,
                            )
                        }
                    },
                    (IpHeader::Ipv4(_), ProtoHeader::Udp(_)) => {
                        if src_ip_addr > 0xffff_ffff || dst_ip_addr > 0xffff_ffff {
                            r == Result::<(), XlbErr>::Err(XlbErr::ErrInvalidIpVal)
                        } else {
                            r == Result::<(), XlbErr>::Err(XlbErr::ErrNotYetImpl)
                        }
                    },
                    (IpHeader::Ipv6(_), _) => r == Result::<(), XlbErr>::Err(XlbErr::ErrNotYetImpl),
                }
            }),
    {
        self.eth.set_src_mac(src_mac_addr);
        self.eth.set_dst_mac(dst_mac_addr);
        match &mut self.ip {
            IpHeader::Ipv4(ipv4) => {
                if src_ip_addr > 0xffff_ffff || dst_ip_addr > 0xffff_ffff {
                    return Err(XlbErr::ErrInvalidIpVal);
                }
                let old_src_ip = ipv4.src_addr();
                let old_dst_ip = ipv4.dst_addr();
                let new_src_ip = src_ip_addr as u32;
                let new_dst_ip = dst_ip_addr as u32;

                // Update IP addresses (also rebuilds the IP header
                // checksum in full).
                ipv4.set_src_dst_addrs(new_src_ip, new_dst_ip);

                match &mut self.l4 {
                    ProtoHeader::Tcp(tcp) => {
                        let old_src_port = tcp.src_port();
                        let old_dst_port = tcp.dst_port();

                        // One combined RFC 1624 update over both IPs
                        // and both ports.
                        tcp.update_checksum_for_nat(
                            old_src_ip,
                            old_dst_ip,
                            old_src_port,
                            old_dst_port,
                            new_src_ip,
                            new_dst_ip,
                            src_port,
                            dst_port,
                        );

                        // Ports are written after the checksum pass.
                        tcp.set_ports_no_checksum(src_port, dst_port);
                    },
                    ProtoHeader::Udp(_) => {
                        return Err(XlbErr::ErrNotYetImpl);
                    },
                }
            },
            IpHeader::Ipv6(_) => {
                return Err(XlbErr::ErrNotYetImpl);
            },
        }
        Ok(())
    }

    /// Transform the packet into a RST aimed back at its sender:
    /// ethernet and IP addresses swapped, TCP ports swapped, sequence
    /// numbers per RFC 793, payload truncated to the headers, both
    /// checksums rebuilt. Errors for UDP; IPv6 is not yet served.
    pub fn rst(&mut self) -> (r: Result<(), XlbErr>)
        requires
            old(self).wf(),
        ensures
            final(self).frame_len == old(self).frame_len,
            final(self).ingress_ifindex == old(self).ingress_ifindex,
            ({
                let p = *old(self);
                match (p.ip, p.l4) {
                    (IpHeader::Ipv4(ih), ProtoHeader::Tcp(t)) => {
                        r == Result::<(), XlbErr>::Ok(()) && rst_transform_spec(p, *final(self))
                    },
                    (IpHeader::Ipv4(ih), ProtoHeader::Udp(_)) => {
                        &&& r == Result::<(), XlbErr>::Err(XlbErr::ErrInvalidOp)
                        &&& final(self).eth == (EthHeader {
                            src_mac: p.eth.dst_mac,
                            dst_mac: p.eth.src_mac,
                            ..p.eth
                        })
                        &&& final(self).ip matches IpHeader::Ipv4(nih) && nih == (Ipv4Header {
                            src: ih.dst,
                            dst: ih.src,
                            check: nih.check,
                            ..ih
                        }) && checksum_ok(ipv4_words(nih))
                        &&& final(self).l4 == p.l4
                        &&& final(self).payload@ == p.payload@
                    },
                    (IpHeader::Ipv6(_), _) => {
                        &&& r == Result::<(), XlbErr>::Err(XlbErr::ErrNotYetImpl)
                        &&& *final(self) == (Packet {
                            eth: EthHeader {
                                src_mac: p.eth.dst_mac,
                                dst_mac: p.eth.src_mac,
                                ..p.eth
                            },
                            ..p
                        })
                    },
                }
            }),
    {
        let src_mac = self.eth.src_mac();
        let dst_mac = self.eth.dst_mac();
        self.eth.set_src_mac(&dst_mac);
        self.eth.set_dst_mac(&src_mac);

        match &mut self.ip {
            IpHeader::Ipv4(ip) => {
                let src_ip = ip.src_addr();
                let dst_ip = ip.dst_addr();

                ip.set_src_dst_addrs(dst_ip, src_ip);

                match &mut self.l4 {
                    ProtoHeader::Tcp(tcp) => {
                        let hdr_len = ip.header_len_ihl();
                        let total = ip.total_len();
                        let new_total_len = match tcp.rst(dst_ip, src_ip, total, hdr_len) {
                            Ok(v) => v,
                            Err(e) => {
                                proof {
                                    assert(false);
                                }
                                return Err(e);
                            },
                        };
                        let keep: usize = (new_total_len - 40) as usize;
                        self.payload.truncate(keep);
                        ip.set_total_len(new_total_len);
                    },
                    ProtoHeader::Udp(_) => {
                        return Err(XlbErr::ErrInvalidOp);
                    },
                }
            },
            IpHeader::Ipv6(_) => {
                return Err(XlbErr::ErrNotYetImpl);
            },
        }
        Ok(())
    }
}

} // verus!
