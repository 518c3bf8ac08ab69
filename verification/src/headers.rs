//! Typed views of the ethernet, IPv4, IPv6, TCP and UDP headers, the
//! word sequences their checksums range over, and the checksum-managing
//! mutators of the rewrite paths.

use crate::checksum::{
    checksum_ok, fold16, fold_checksum, lemma_complement_makes_valid, lemma_fold16_range,
    lemma_incremental_update, lemma_word_sum_append, lemma_word_sum_nonneg, word_sum,
};
use crate::config::IpVersion;
use crate::errors::XlbErr;
use crate::mac::MacAddr;
use vstd::prelude::*;

verus! {

pub const ETH_HDR_LEN: usize = 14;

pub const IPV4_HDR_LEN: usize = 20;

pub const IPV6_HDR_LEN: usize = 40;

pub const TCP_HDR_LEN: usize = 20;

pub const UDP_HDR_LEN: usize = 8;

/// High 16-bit half of a 32-bit value.
pub open spec fn hi16(v: u32) -> u16 {
    (v / 0x10000) as u16
}

/// Low 16-bit half of a 32-bit value.
pub open spec fn lo16(v: u32) -> u16 {
    (v % 0x10000) as u16
}

/// The ethernet header: two addresses and the ethertype.
#[derive(Debug, Clone, Copy, PartialEq, Eq)]
pub struct EthHeader {
    pub dst_mac: [u8; 6],
    pub src_mac: [u8; 6],
    pub ether_type: u16,
}

pub const ETHERTYPE_IPV4: u16 = 0x0800;

pub const ETHERTYPE_IPV6: u16 = 0x86dd;

impl EthHeader {
    pub fn ip_version(&self) -> (r: Result<IpVersion, ()>)
        ensures
            self.ether_type == ETHERTYPE_IPV4 ==> r == Result::<IpVersion, ()>::Ok(
                IpVersion::Ipv4,
            ),
            self.ether_type == ETHERTYPE_IPV6 ==> r == Result::<IpVersion, ()>::Ok(
                IpVersion::Ipv6,
            ),
            self.ether_type != ETHERTYPE_IPV4 && self.ether_type != ETHERTYPE_IPV6 ==> r
                == Result::<IpVersion, ()>::Err(()),
    {
        if self.ether_type == ETHERTYPE_IPV4 {
            Ok(IpVersion::Ipv4)
        } else if self.ether_type == ETHERTYPE_IPV6 {
            Ok(IpVersion::Ipv6)
        } else {
            Err(())
        }
    }

    pub fn src_mac(&self) -> (r: MacAddr)
        ensures
            r.spec_bytes() == self.src_mac,
    {
        MacAddr::new(self.src_mac)
    }

    pub fn dst_mac(&self) -> (r: MacAddr)
        ensures
            r.spec_bytes() == self.dst_mac,
    {
        MacAddr::new(self.dst_mac)
    }

    pub fn set_src_mac(&mut self, new_mac: &MacAddr)
        ensures
            *final(self) == (EthHeader { src_mac: new_mac.spec_bytes(), ..*old(self) }),
    {
        self.src_mac = new_mac.as_bytes();
    }

    pub fn set_dst_mac(&mut self, new_mac: &MacAddr)
        ensures
            *final(self) == (EthHeader { dst_mac: new_mac.spec_bytes(), ..*old(self) }),
    {
        self.dst_mac = new_mac.as_bytes();
    }
}

/// The IPv4 header, held as plain fields. The view fixes the header
/// length at five words (no options) and the version at 4, which is
/// what the decoder accepts.
#[derive(Debug, Clone, Copy, PartialEq, Eq)]
pub struct Ipv4Header {
    pub tos: u8,
    pub total_len: u16,
    pub ident: u16,
    pub flags_frag: u16,
    pub ttl: u8,
    pub proto: u8,
    pub check: u16,
    pub src: u32,
    pub dst: u32,
}

/// The ten 16-bit words of an IPv4 header, checksum field included at
/// index five.
pub open spec fn ipv4_words(h: Ipv4Header) -> Seq<u16> {
    seq![
        (0x4500 + h.tos) as u16,
        h.total_len,
        h.ident,
        h.flags_frag,
        ((h.ttl as u16) * 0x100 + h.proto) as u16,
        h.check,
        hi16(h.src),
        lo16(h.src),
        hi16(h.dst),
        lo16(h.dst),
    ]
}

/// The sum of an explicit ten-word sequence.
pub proof fn lemma_word_sum10(w: Seq<u16>)
    requires
        w.len() == 10,
    ensures
        word_sum(w) == w[0] + w[1] + w[2] + w[3] + w[4] + w[5] + w[6] + w[7] + w[8] + w[9],
{
    let t1 = w.subrange(1, 10);
    let t2 = w.subrange(2, 10);
    let t3 = w.subrange(3, 10);
    let t4 = w.subrange(4, 10);
    let t5 = w.subrange(5, 10);
    let t6 = w.subrange(6, 10);
    let t7 = w.subrange(7, 10);
    let t8 = w.subrange(8, 10);
    let t9 = w.subrange(9, 10);
    let t10 = w.subrange(10, 10);
    assert(t1.subrange(1, t1.len() as int) =~= t2);
    assert(t2.subrange(1, t2.len() as int) =~= t3);
    assert(t3.subrange(1, t3.len() as int) =~= t4);
    assert(t4.subrange(1, t4.len() as int) =~= t5);
    assert(t5.subrange(1, t5.len() as int) =~= t6);
    assert(t6.subrange(1, t6.len() as int) =~= t7);
    assert(t7.subrange(1, t7.len() as int) =~= t8);
    assert(t8.subrange(1, t8.len() as int) =~= t9);
    assert(t9.subrange(1, t9.len() as int) =~= t10);
    assert(word_sum(w) == w[0] + word_sum(t1));
    assert(word_sum(t1) == t1[0] + word_sum(t2));
    assert(word_sum(t2) == t2[0] + word_sum(t3));
    assert(word_sum(t3) == t3[0] + word_sum(t4));
    assert(word_sum(t4) == t4[0] + word_sum(t5));
    assert(word_sum(t5) == t5[0] + word_sum(t6));
    assert(word_sum(t6) == t6[0] + word_sum(t7));
    assert(word_sum(t7) == t7[0] + word_sum(t8));
    assert(word_sum(t8) == t8[0] + word_sum(t9));
    assert(word_sum(t9) == t9[0] + word_sum(t10));
    assert(word_sum(t10) == 0);
}

/// The sum of an explicit six-word sequence.
pub proof fn lemma_word_sum6(w: Seq<u16>)
    requires
        w.len() == 6,
    ensures
        word_sum(w) == w[0] + w[1] + w[2] + w[3] + w[4] + w[5],
{
    let t1 = w.subrange(1, 6);
    let t2 = w.subrange(2, 6);
    let t3 = w.subrange(3, 6);
    let t4 = w.subrange(4, 6);
    let t5 = w.subrange(5, 6);
    let t6 = w.subrange(6, 6);
    assert(t1.subrange(1, t1.len() as int) =~= t2);
    assert(t2.subrange(1, t2.len() as int) =~= t3);
    assert(t3.subrange(1, t3.len() as int) =~= t4);
    assert(t4.subrange(1, t4.len() as int) =~= t5);
    assert(t5.subrange(1, t5.len() as int) =~= t6);
    assert(word_sum(w) == w[0] + word_sum(t1));
    assert(word_sum(t1) == t1[0] + word_sum(t2));
    assert(word_sum(t2) == t2[0] + word_sum(t3));
    assert(word_sum(t3) == t3[0] + word_sum(t4));
    assert(word_sum(t4) == t4[0] + word_sum(t5));
    assert(word_sum(t5) == t5[0] + word_sum(t6));
    assert(word_sum(t6) == 0);
}

impl Ipv4Header {
    /// Get source IP address in host byte order.
    pub fn src_addr(&self) -> (r: u32)
        ensures
            r == self.src,
    {
        self.src
    }

    /// Get destination IP address in host byte order.
    pub fn dst_addr(&self) -> (r: u32)
        ensures
            r == self.dst,
    {
        self.dst
    }

    /// Packet total length in bytes.
    pub fn total_len(&self) -> (r: u16)
        ensures
            r == self.total_len,
    {
        self.total_len
    }

    /// Header length in bytes; the decoder only accepts the five-word
    /// form.
    pub fn header_len_ihl(&self) -> (r: u8)
        ensures
            r == 20,
    {
        20
    }

    /// Fully recalculate the IP header checksum from scratch. Used
    /// because the original checksum might be invalid (e.g. from NIC
    /// offload).
    fn recalculate_checksum(&mut self)
        ensures
            *final(self) == (Ipv4Header { check: final(self).check, ..*old(self) }),
            checksum_ok(ipv4_words(*final(self))),
    {
        proof {
            let zeroed = Ipv4Header { check: 0, ..*self };
            lemma_word_sum10(ipv4_words(zeroed));
        }
        self.check = 0;
        let sum: u64 = (0x4500u64 + self.tos as u64) + self.total_len as u64
            + self.ident as u64 + self.flags_frag as u64
            + ((self.ttl as u64) * 0x100 + self.proto as u64)
            + (self.src / 0x10000) as u64 + (self.src % 0x10000) as u64
            + (self.dst / 0x10000) as u64 + (self.dst % 0x10000) as u64;
        let folded = fold_checksum(sum);
        proof {
            lemma_complement_makes_valid(sum as int);
        }
        self.check = 0xffff - folded;
        proof {
            lemma_word_sum10(ipv4_words(*self));
        }
    }

    /// Set both source and destination addresses; recalculates the
    /// header checksum in full.
    pub fn set_src_dst_addrs(&mut self, new_src: u32, new_dst: u32)
        ensures
            *final(self) == (Ipv4Header {
                src: new_src,
                dst: new_dst,
                check: final(self).check,
                ..*old(self)
            }),
            checksum_ok(ipv4_words(*final(self))),
    {
        self.src = new_src;
        self.dst = new_dst;
        self.recalculate_checksum();
    }

    /// Update total length and recalculate the header checksum.
    pub fn set_total_len(&mut self, new_len: u16)
        ensures
            *final(self) == (Ipv4Header {
                total_len: new_len,
                check: final(self).check,
                ..*old(self)
            }),
            old(self).total_len != new_len ==> checksum_ok(ipv4_words(*final(self))),
            old(self).total_len == new_len ==> *final(self) == *old(self),
    {
        if self.total_len == new_len {
            return;
        }
        self.total_len = new_len;
        self.recalculate_checksum();
    }
}

/// The IPv6 header, held for pass-through paths; forwarding for it is
/// not yet implemented.
#[derive(Debug, Clone, Copy, PartialEq, Eq)]
pub struct Ipv6Header {
    pub payload_len: u16,
    pub next_hdr: u8,
    pub src: u128,
    pub dst: u128,
}

pub const TCP_FLAG_FIN: u8 = 0x01;

pub const TCP_FLAG_SYN: u8 = 0x02;

pub const TCP_FLAG_RST: u8 = 0x04;

pub const TCP_FLAG_PSH: u8 = 0x08;

pub const TCP_FLAG_ACK: u8 = 0x10;

pub const TCP_FLAG_URG: u8 = 0x20;

/// The fixed 20-byte TCP header as plain fields. `data_off` is the raw
/// twelfth byte (data offset in its high nibble), `flags` the
/// thirteenth.
#[derive(Debug, Clone, Copy, PartialEq, Eq)]
pub struct TcpHeader {
    pub src_port: u16,
    pub dst_port: u16,
    pub seq_no: u32,
    pub ack_no: u32,
    pub data_off: u8,
    pub flags: u8,
    pub window: u16,
    pub check: u16,
    pub urg_ptr: u16,
}

/// The ten 16-bit words of the fixed TCP header, checksum included at
/// index eight.
pub open spec fn tcp_header_words(t: TcpHeader) -> Seq<u16> {
    seq![
        t.src_port,
        t.dst_port,
        hi16(t.seq_no),
        lo16(t.seq_no),
        hi16(t.ack_no),
        lo16(t.ack_no),
        ((t.data_off as u16) * 0x100 + t.flags) as u16,
        t.window,
        t.check,
        t.urg_ptr,
    ]
}

/// The six words of the RFC 793 pseudo-header.
pub open spec fn tcp_pseudo_words(src: u32, dst: u32, tcp_len: u16) -> Seq<u16> {
    seq![hi16(src), lo16(src), hi16(dst), lo16(dst), 6u16, tcp_len]
}

/// The 16-bit words of a byte sequence, a trailing odd byte padded
/// with zero.
pub open spec fn payload_words(p: Seq<u8>) -> Seq<u16>
    decreases p.len(),
{
    if p.len() == 0 {
        Seq::empty()
    } else if p.len() == 1 {
        seq![(p[0] as u16 * 0x100) as u16]
    } else {
        seq![((p[0] as u16) * 0x100 + p[1]) as u16] + payload_words(p.skip(2))
    }
}

/// The word sequence the TCP checksum of a segment ranges over:
/// pseudo-header, fixed header, then options and data.
pub open spec fn tcp_checksum_words(src: u32, dst: u32, t: TcpHeader, payload: Seq<u8>)
    -> Seq<u16> {
    tcp_pseudo_words(src, dst, (20 + payload.len()) as u16) + tcp_header_words(t)
        + payload_words(payload)
}

pub proof fn lemma_word_sum_singleton(w: u16)
    ensures
        word_sum(seq![w]) == w,
{
    assert(seq![w].subrange(1, 1) =~= Seq::<u16>::empty());
    assert(word_sum(seq![w]) == w + word_sum(seq![w].subrange(1, 1)));
    assert(word_sum(Seq::<u16>::empty()) == 0);
}

pub proof fn lemma_payload_words_sum_step(p: Seq<u8>)
    requires
        p.len() >= 2,
    ensures
        word_sum(payload_words(p)) == (p[0] as int) * 0x100 + p[1] + word_sum(
            payload_words(p.skip(2)),
        ),
{
    let w = (((p[0] as u16) * 0x100 + p[1]) as u16);
    lemma_word_sum_singleton(w);
    lemma_word_sum_append(seq![w], payload_words(p.skip(2)));
}

impl TcpHeader {
    pub fn src_port(&self) -> (r: u16)
        ensures
            r == self.src_port,
    {
        self.src_port
    }

    pub fn dst_port(&self) -> (r: u16)
        ensures
            r == self.dst_port,
    {
        self.dst_port
    }

    /// Data offset in 32-bit words, from the high nibble of the raw
    /// byte.
    pub open spec fn spec_doff(&self) -> u8 {
        (self.data_off / 16) as u8
    }

    pub fn doff(&self) -> (r: u8)
        ensures
            r == self.spec_doff(),
    {
        self.data_off / 16
    }

    pub open spec fn spec_is_syn(&self) -> bool {
        (self.flags / TCP_FLAG_SYN) % 2 == 1
    }

    pub open spec fn spec_is_fin(&self) -> bool {
        self.flags % 2 == 1
    }

    pub open spec fn spec_is_rst(&self) -> bool {
        (self.flags / TCP_FLAG_RST) % 2 == 1
    }

    pub open spec fn spec_is_ack(&self) -> bool {
        (self.flags / TCP_FLAG_ACK) % 2 == 1
    }

    pub fn is_syn(&self) -> (r: bool)
        ensures
            r == self.spec_is_syn(),
    {
        (self.flags / TCP_FLAG_SYN) % 2 == 1
    }

    pub fn is_fin(&self) -> (r: bool)
        ensures
            r == self.spec_is_fin(),
    {
        self.flags % 2 == 1
    }

    pub fn is_rst(&self) -> (r: bool)
        ensures
            r == self.spec_is_rst(),
    {
        (self.flags / TCP_FLAG_RST) % 2 == 1
    }

    pub fn is_ack(&self) -> (r: bool)
        ensures
            r == self.spec_is_ack(),
    {
        (self.flags / TCP_FLAG_ACK) % 2 == 1
    }

    /// Set both ports without touching the checksum; for use when the
    /// checksum is updated separately.
    pub fn set_ports_no_checksum(&mut self, new_src: u16, new_dst: u16)
        ensures
            *final(self) == (TcpHeader { src_port: new_src, dst_port: new_dst, ..*old(self) }),
    {
        self.src_port = new_src;
        self.dst_port = new_dst;
    }

    fn swap_ports(&mut self)
        ensures
            *final(self) == (TcpHeader {
                src_port: old(self).dst_port,
                dst_port: old(self).src_port,
                ..*old(self)
            }),
    {
        let tmp = self.src_port;
        self.src_port = self.dst_port;
        self.dst_port = tmp;
    }

    /// The flag byte after forcing a RST: RST alone or RST with ACK;
    /// the two reserved high bits are untouched.
    pub open spec fn spec_rst_flags(flags: u8, with_ack: bool) -> u8 {
        ((flags / 0x40) * 0x40 + TCP_FLAG_RST + if with_ack {
            TCP_FLAG_ACK as int
        } else {
            0
        }) as u8
    }

    fn set_rst_flags(&mut self, with_ack: bool)
        ensures
            *final(self) == (TcpHeader {
                flags: Self::spec_rst_flags(old(self).flags, with_ack),
                ..*old(self)
            }),
    {
        let high: u8 = (self.flags / 0x40) * 0x40;
        self.flags = high + TCP_FLAG_RST + if with_ack {
            TCP_FLAG_ACK
        } else {
            0
        };
    }

    fn clear_window_and_urgent(&mut self)
        ensures
            *final(self) == (TcpHeader { window: 0, urg_ptr: 0, ..*old(self) }),
    {
        self.window = 0;
        self.urg_ptr = 0;
    }

    /// Recalculate the TCP checksum from scratch over the pseudo-header
    /// and the fixed 20-byte header; used by RST generation, whose
    /// segments carry no data.
    fn recalc_checksum(&mut self, src_ip: u32, dst_ip: u32, tcp_len_bytes: u16)
        ensures
            *final(self) == (TcpHeader { check: final(self).check, ..*old(self) }),
            checksum_ok(
                tcp_pseudo_words(src_ip, dst_ip, tcp_len_bytes) + tcp_header_words(*final(self)),
            ),
    {
        self.check = 0;
        let sum: u64 = (src_ip / 0x10000) as u64 + (src_ip % 0x10000) as u64
            + (dst_ip / 0x10000) as u64 + (dst_ip % 0x10000) as u64 + 6u64 + tcp_len_bytes as u64
            + self.src_port as u64 + self.dst_port as u64 + (self.seq_no / 0x10000) as u64
            + (self.seq_no % 0x10000) as u64 + (self.ack_no / 0x10000) as u64
            + (self.ack_no % 0x10000) as u64 + ((self.data_off as u64) * 0x100 + self.flags as u64)
            + self.window as u64 + self.urg_ptr as u64;
        proof {
            let ps = tcp_pseudo_words(src_ip, dst_ip, tcp_len_bytes);
            let hw = tcp_header_words(*self);
            lemma_word_sum6(ps);
            lemma_word_sum10(hw);
            lemma_word_sum_append(ps, hw);
            lemma_complement_makes_valid(sum as int);
        }
        let folded = fold_checksum(sum);
        self.check = 0xffff - folded;
        proof {
            let ps = tcp_pseudo_words(src_ip, dst_ip, tcp_len_bytes);
            let hw = tcp_header_words(*self);
            lemma_word_sum6(ps);
            lemma_word_sum10(hw);
            lemma_word_sum_append(ps, hw);
        }
    }

    /// Update the TCP checksum for a complete NAT rewrite (both IPs and
    /// both ports) in one RFC 1624 pass: a segment that verified before
    /// the rewrite verifies after it, whatever its payload.
    pub fn update_checksum_for_nat(
        &mut self,
        old_src_ip: u32,
        old_dst_ip: u32,
        old_src_port: u16,
        old_dst_port: u16,
        new_src_ip: u32,
        new_dst_ip: u32,
        new_src_port: u16,
        new_dst_port: u16,
    )
        requires
            old(self).src_port == old_src_port,
            old(self).dst_port == old_dst_port,
        ensures
            *final(self) == (TcpHeader { check: final(self).check, ..*old(self) }),
            forall|payload: Seq<u8>|
                payload.len() + 20 <= 0xffff && checksum_ok(
                    #[trigger] tcp_checksum_words(old_src_ip, old_dst_ip, *old(self), payload),
                ) ==> checksum_ok(
                    tcp_checksum_words(
                        new_src_ip,
                        new_dst_ip,
                        (TcpHeader {
                            src_port: new_src_port,
                            dst_port: new_dst_port,
                            check: final(self).check,
                            ..*old(self)
                        }),
                        payload,
                    ),
                ),
    {
        let ghost pre = *self;
        let old_cksum = self.check;
        let sum: u64 = (0xffffu64 - old_cksum as u64) + (0xffffu64 - (old_src_ip / 0x10000) as u64)
            + (0xffffu64 - (old_src_ip % 0x10000) as u64)
            + (0xffffu64 - (old_dst_ip / 0x10000) as u64)
            + (0xffffu64 - (old_dst_ip % 0x10000) as u64) + (new_src_ip / 0x10000) as u64
            + (new_src_ip % 0x10000) as u64 + (new_dst_ip / 0x10000) as u64
            + (new_dst_ip % 0x10000) as u64 + (0xffffu64 - old_src_port as u64)
            + (0xffffu64 - old_dst_port as u64) + new_src_port as u64 + new_dst_port as u64;
        let folded = fold_checksum(sum);
        self.check = 0xffff - folded;
        proof {
            let hc = pre.check as int;
            let m = hi16(old_src_ip) + lo16(old_src_ip) + hi16(old_dst_ip) + lo16(old_dst_ip)
                + old_src_port + old_dst_port;
            let mp = hi16(new_src_ip) + lo16(new_src_ip) + hi16(new_dst_ip) + lo16(new_dst_ip)
                + new_src_port + new_dst_port;
            assert(sum as int == (0xffff - hc) + (6 * 0xffff - m) + mp);
            assert forall|payload: Seq<u8>|
                payload.len() + 20 <= 0xffff && checksum_ok(
                    #[trigger] tcp_checksum_words(old_src_ip, old_dst_ip, pre, payload),
                ) implies checksum_ok(
                tcp_checksum_words(
                    new_src_ip,
                    new_dst_ip,
                    (TcpHeader {
                        src_port: new_src_port,
                        dst_port: new_dst_port,
                        check: self.check,
                        ..pre
                    }),
                    payload,
                ),
            ) by {
                let new_hdr = TcpHeader {
                    src_port: new_src_port,
                    dst_port: new_dst_port,
                    check: self.check,
                    ..pre
                };
                let tlen = (20 + payload.len()) as u16;
                let pw = payload_words(payload);
                lemma_word_sum_nonneg(pw);
                let ops = tcp_pseudo_words(old_src_ip, old_dst_ip, tlen);
                let ohw = tcp_header_words(pre);
                lemma_word_sum6(ops);
                lemma_word_sum10(ohw);
                lemma_word_sum_append(ops, ohw);
                lemma_word_sum_append(ops + ohw, pw);
                let nps = tcp_pseudo_words(new_src_ip, new_dst_ip, tlen);
                let nhw = tcp_header_words(new_hdr);
                lemma_word_sum6(nps);
                lemma_word_sum10(nhw);
                lemma_word_sum_append(nps, nhw);
                lemma_word_sum_append(nps + nhw, pw);
                let s = 6 + tlen + hi16(pre.seq_no) + lo16(pre.seq_no) + hi16(pre.ack_no)
                    + lo16(pre.ack_no) + (pre.data_off as int) * 0x100 + pre.flags + pre.window
                    + pre.urg_ptr + word_sum(pw);
                assert(word_sum(tcp_checksum_words(old_src_ip, old_dst_ip, pre, payload)) == s + m
                    + hc);
                lemma_incremental_update(s, m, mp, hc, 6);
            }
        }
    }

    /// Transform this header into a RST response per RFC 793: ports
    /// swapped, sequence numbers chosen by the ACK case, only RST (and
    /// possibly ACK) left set, window and urgent zeroed, and the
    /// checksum recomputed over pseudo-header plus fixed header.
    ///
    /// Returns the total IP length the packet must be truncated to.
    pub fn rst(
        &mut self,
        src_ip: u32,
        dst_ip: u32,
        ip_total_len_bytes: u16,
        ip_hdr_len_bytes: u8,
    ) -> (r: Result<u16, XlbErr>)
        ensures
            ({
                let t = *old(self);
                let tcp_len = (t.spec_doff() as int) * 4;
                if ip_hdr_len_bytes + tcp_len > ip_total_len_bytes {
                    r == Result::<u16, XlbErr>::Err(XlbErr::ErrInvalidOp) && *final(self) == t
                } else {
                    &&& r == Result::<u16, XlbErr>::Ok(((ip_hdr_len_bytes + tcp_len) as u16))
                    &&& *final(self) == (TcpHeader {
                        src_port: t.dst_port,
                        dst_port: t.src_port,
                        seq_no: if t.spec_is_ack() {
                            t.ack_no
                        } else {
                            0
                        },
                        ack_no: if t.spec_is_ack() {
                            t.ack_no
                        } else {
                            ((t.seq_no + calc_seg_len_spec(
                                t,
                                ip_total_len_bytes,
                                ip_hdr_len_bytes,
                            )) % 0x1_0000_0000) as u32
                        },
                        flags: Self::spec_rst_flags(t.flags, !t.spec_is_ack()),
                        window: 0,
                        urg_ptr: 0,
                        check: final(self).check,
                        ..t
                    })
                    &&& checksum_ok(
                        tcp_pseudo_words(src_ip, dst_ip, (tcp_len as u16)) + tcp_header_words(
                            *final(self),
                        ),
                    )
                }
            }),
    {
        let tcp_len_bytes: u16 = (self.doff() as u16) * 4;
        let desired_total: u32 = ip_hdr_len_bytes as u32 + tcp_len_bytes as u32;
        if desired_total > ip_total_len_bytes as u32 {
            return Err(XlbErr::ErrInvalidOp);
        }
        self.swap_ports();

        let incoming_ack = self.ack_no;
        let incoming_seq = self.seq_no;

        if self.is_ack() {
            // RFC 793: if ACK is on, RST.SEQ = incoming.ACK.
            self.seq_no = incoming_ack;
            self.set_rst_flags(false);
        } else {
            // RFC 793: if ACK is off, RST.SEQ = 0 and
            // RST.ACK = incoming.SEQ + SEG.LEN.
            let seg_len = calculate_segment_length(self, ip_total_len_bytes, ip_hdr_len_bytes);
            self.seq_no = 0;
            self.ack_no = ((incoming_seq as u64 + seg_len as u64) % 0x1_0000_0000) as u32;
            self.set_rst_flags(true);
        }
        self.clear_window_and_urgent();
        self.recalc_checksum(src_ip, dst_ip, tcp_len_bytes);
        Ok(desired_total as u16)
    }
}

/// RFC 793 segment length: data octets plus one for SYN and one for
/// FIN.
pub open spec fn calc_seg_len_spec(t: TcpHeader, ip_total_len_bytes: u16, ip_hdr_len_bytes: u8)
    -> int {
    let data_len = if ip_total_len_bytes >= ip_hdr_len_bytes + (t.spec_doff() as int) * 4 {
        ip_total_len_bytes - ip_hdr_len_bytes - (t.spec_doff() as int) * 4
    } else {
        0
    };
    data_len + (if t.spec_is_syn() {
        1int
    } else {
        0
    }) + (if t.spec_is_fin() {
        1int
    } else {
        0
    })
}

/// Calculate the TCP segment length for RFC 793 sequence number
/// calculations: `SEG.LEN = data_bytes + SYN + FIN`.
pub fn calculate_segment_length(
    tcp_hdr: &TcpHeader,
    ip_total_len_bytes: u16,
    ip_hdr_len_bytes: u8,
) -> (r: u32)
    ensures
        r == calc_seg_len_spec(*tcp_hdr, ip_total_len_bytes, ip_hdr_len_bytes),
{
    let tcp_hdr_len: u32 = (tcp_hdr.doff() as u32) * 4;
    let mut data_len: u32 = ip_total_len_bytes as u32;
    if data_len >= ip_hdr_len_bytes as u32 {
        data_len = data_len - ip_hdr_len_bytes as u32;
    } else {
        data_len = 0;
    }
    if data_len >= tcp_hdr_len {
        data_len = data_len - tcp_hdr_len;
    } else {
        data_len = 0;
    }
    let syn: u32 = if tcp_hdr.is_syn() {
        1
    } else {
        0
    };
    let fin: u32 = if tcp_hdr.is_fin() {
        1
    } else {
        0
    };
    data_len + syn + fin
}

/// The value the TCP checksum field must carry for the given pseudo
/// header inputs, fixed header and payload: the complement of the
/// folded sum with the checksum field zeroed.
pub open spec fn tcp_full_checksum_spec(
    src_ip: u32,
    dst_ip: u32,
    t: TcpHeader,
    payload: Seq<u8>,
    tcp_len: u16,
) -> int {
    0xffff - fold16(
        word_sum(
            tcp_pseudo_words(src_ip, dst_ip, tcp_len) + tcp_header_words(
                TcpHeader { check: 0, ..t },
            ) + payload_words(payload),
        ),
    )
}

/// Calculate the TCP checksum over pseudo-header, fixed header and
/// payload, with bounds checking: a segment length shorter than the
/// fixed header is an invalid operation, and one longer than what is
/// on hand is clipped to the bytes available.
pub fn calculate_tcp_checksum_checked(
    src_ip: u32,
    dst_ip: u32,
    tcp_hdr: &TcpHeader,
    payload: &Vec<u8>,
    tcp_len_bytes: u32,
) -> (r: Result<[u8; 2], XlbErr>)
    requires
        payload@.len() + 20 <= 0xffff,
    ensures
        tcp_len_bytes < 20 ==> r == Result::<[u8; 2], XlbErr>::Err(XlbErr::ErrInvalidOp),
        tcp_len_bytes >= 20 ==> ({
            let eff = if tcp_len_bytes > 20 + payload@.len() {
                payload@.len() as int
            } else {
                tcp_len_bytes - 20
            };
            let c = tcp_full_checksum_spec(
                src_ip,
                dst_ip,
                *tcp_hdr,
                payload@.subrange(0, eff),
                ((20 + eff) as u16),
            );
            r == Result::<[u8; 2], XlbErr>::Ok([((c / 0x100) as u8), ((c % 0x100) as u8)])
        }),
{
    if tcp_len_bytes < 20 {
        return Err(XlbErr::ErrInvalidOp);
    }
    let mut eff: usize = (tcp_len_bytes - 20) as usize;
    if eff > payload.len() {
        eff = payload.len();
    }
    let tcp_len: u16 = (20 + eff) as u16;
    let mut sum: u64 = (src_ip / 0x10000) as u64 + (src_ip % 0x10000) as u64
        + (dst_ip / 0x10000) as u64 + (dst_ip % 0x10000) as u64 + 6u64 + tcp_len as u64
        + tcp_hdr.src_port as u64 + tcp_hdr.dst_port as u64 + (tcp_hdr.seq_no / 0x10000) as u64
        + (tcp_hdr.seq_no % 0x10000) as u64 + (tcp_hdr.ack_no / 0x10000) as u64
        + (tcp_hdr.ack_no % 0x10000) as u64
        + ((tcp_hdr.data_off as u64) * 0x100 + tcp_hdr.flags as u64) + tcp_hdr.window as u64
        + tcp_hdr.urg_ptr as u64;
    proof {
        let zeroed = TcpHeader { check: 0, ..*tcp_hdr };
        let ps = tcp_pseudo_words(src_ip, dst_ip, tcp_len);
        let hw = tcp_header_words(zeroed);
        lemma_word_sum6(ps);
        lemma_word_sum10(hw);
        lemma_word_sum_append(ps, hw);
    }
    let ghost clipped = payload@.subrange(0, eff as int);
    let mut i: usize = 0;
    let ghost base = sum;
    proof {
        assert(clipped.skip(0) =~= clipped);
    }
    while i + 1 < eff
        invariant
            i <= eff,
            eff <= payload@.len(),
            payload@.len() + 20 <= 0xffff,
            i % 2 == 0,
            clipped == payload@.subrange(0, eff as int),
            base <= 1048560,
            sum <= base + (i as int) / 2 * 0xffff,
            base + word_sum(payload_words(clipped)) == sum + word_sum(
                payload_words(clipped.skip(i as int)),
            ),
        decreases eff - i,
    {
        proof {
            lemma_payload_words_sum_step(clipped.skip(i as int));
            assert(clipped.skip(i as int).skip(2) =~= clipped.skip(i + 2));
        }
        let w: u64 = (payload[i] as u64) * 0x100 + payload[i + 1] as u64;
        sum = sum + w;
        i = i + 2;
    }
    if i < eff {
        proof {
            lemma_word_sum_singleton(((clipped.skip(i as int)[0] as u16) * 0x100) as u16);
            assert(payload_words(clipped.skip(i as int)) =~= seq![
                ((clipped.skip(i as int)[0] as u16) * 0x100) as u16,
            ]);
        }
        sum = sum + (payload[i] as u64) * 0x100;
        proof {
            assert(clipped.skip(eff as int) =~= Seq::<u8>::empty());
        }
    } else {
        proof {
            assert(clipped.skip(i as int) =~= Seq::<u8>::empty());
        }
    }
    proof {
        let zeroed = TcpHeader { check: 0, ..*tcp_hdr };
        let ps = tcp_pseudo_words(src_ip, dst_ip, tcp_len);
        let hw = tcp_header_words(zeroed);
        lemma_word_sum_append(ps + hw, payload_words(clipped));
        lemma_fold16_range(sum as int);
    }
    let folded = fold_checksum(sum);
    let c: u16 = 0xffff - folded;
    Ok([(c / 0x100) as u8, (c % 0x100) as u8])
}

/// The UDP header; the forwarding path does not yet serve it.
#[derive(Debug, Clone, Copy, PartialEq, Eq)]
pub struct UdpHeader {
    pub src_port: u16,
    pub dst_port: u16,
    pub len: u16,
    pub check: u16,
}

} // verus!
