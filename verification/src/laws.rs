//! Table-level laws of the connection tracker: the pairing invariant
//! of the flow table, monotonicity of the liveness counters, and the
//! round-trip guarantee for accepted connections.

use crate::handler::{
    client_flow_spec, eph_candidate_at, eph_port_of, new_flow_map_spec, new_flow_result_spec,
    server_flow_spec, touched_flow_spec,
};
use crate::types::{flow_key_hash, Backend, Flow};
use vstd::prelude::*;

verus! {

/// The pairing invariant: at a quiescent moment the table's keys form
/// disjoint pairs whose entries point at one another through their
/// stored counter-flow keys.
pub open spec fn paired(m: Map<u64, Flow>) -> bool {
    forall|k: u64| #[trigger] m.contains_key(k) ==> {
        let ch = m[k].counter_flow_key_hash;
        &&& ch != k
        &&& m.contains_key(ch)
        &&& m[ch].counter_flow_key_hash == k
    }
}

/// Accepting a SYN preserves pairing: the two flows born together are
/// inserted under fresh, distinct keys and point at each other, so a
/// paired table stays paired.
pub proof fn lemma_insert_pair_preserves_pairing(
    m: Map<u64, Flow>,
    sh: u64,
    ch: u64,
    sf: Flow,
    cf: Flow,
)
    requires
        paired(m),
        !m.contains_key(sh),
        !m.contains_key(ch),
        sh != ch,
        sf.counter_flow_key_hash == ch,
        cf.counter_flow_key_hash == sh,
    ensures
        paired(m.insert(sh, sf).insert(ch, cf)),
{
    let m2 = m.insert(sh, sf).insert(ch, cf);
    assert forall|k: u64| #[trigger] m2.contains_key(k) implies {
        let c = m2[k].counter_flow_key_hash;
        &&& c != k
        &&& m2.contains_key(c)
        &&& m2[c].counter_flow_key_hash == k
    } by {
        if k == sh || k == ch {
        } else {
            assert(m.contains_key(k));
            let c = m[k].counter_flow_key_hash;
            assert(m.contains_key(c));
            assert(c != sh && c != ch);
        }
    }
}

/// The two flows created for an accepted SYN do point at each other,
/// so the insert-pair law applies to the SYN path whenever the chosen
/// keys are fresh and distinct.
pub proof fn lemma_new_flow_preserves_pairing(
    p: crate::packet::Packet,
    b: Backend,
    dest_map_port: u16,
    t0: Map<u64, Flow>,
    n0: int,
    draws: Seq<u32>,
    now_ns: u64,
)
    requires
        paired(t0),
        new_flow_result_spec(p, b, dest_map_port, t0, n0, draws, now_ns) is Ok,
        ({
            let i = eph_candidate_at(b.ip, t0, draws, 0)->Some_0;
            let sh = flow_key_hash(p.spec_src_ip(), p.spec_src_port());
            let ch = flow_key_hash(b.ip, eph_port_of(draws[i]));
            sh != ch && !t0.contains_key(sh)
        }),
    ensures
        paired(new_flow_map_spec(p, b, dest_map_port, t0, n0, draws, now_ns)),
{
    let i = eph_candidate_at(b.ip, t0, draws, 0)->Some_0;
    let eph = eph_port_of(draws[i]);
    let sh = flow_key_hash(p.spec_src_ip(), p.spec_src_port());
    let ch = flow_key_hash(b.ip, eph);
    let sf = server_flow_spec(p, b, dest_map_port, eph, now_ns);
    let cf = client_flow_spec(p, b, sh, now_ns);
    lemma_eph_candidate_fresh(b.ip, t0, draws, 0);
    lemma_insert_pair_preserves_pairing(t0, sh, ch, sf, cf);
}

/// The candidate the ephemeral-port search settles on names a key
/// absent from the table.
pub proof fn lemma_eph_candidate_fresh(
    backend_ip: u128,
    flows: Map<u64, Flow>,
    draws: Seq<u32>,
    i: int,
)
    requires
        eph_candidate_at(backend_ip, flows, draws, i) is Some,
    ensures
        !flows.contains_key(
            flow_key_hash(
                backend_ip,
                eph_port_of(draws[eph_candidate_at(backend_ip, flows, draws, i)->Some_0]),
            ),
        ),
    decreases 5 - i,
{
    if i < 0 || i >= 5 {
    } else if !flows.contains_key(flow_key_hash(backend_ip, eph_port_of(draws[i]))) {
    } else {
        lemma_eph_candidate_fresh(backend_ip, flows, draws, i + 1);
    }
}

/// Reaping is pairing-safe: removing a counter-closed key set (each
/// removed entry's counter key is removed with it) keeps the remaining
/// table paired.
pub proof fn lemma_remove_pairs_preserves_pairing(m: Map<u64, Flow>, r: Set<u64>)
    requires
        paired(m),
        forall|k: u64| #[trigger] r.contains(k) && m.contains_key(k) ==> r.contains(
            m[k].counter_flow_key_hash,
        ),
    ensures
        paired(m.remove_keys(r)),
{
    let m2 = m.remove_keys(r);
    assert forall|k: u64| #[trigger] m2.contains_key(k) implies {
        let c = m2[k].counter_flow_key_hash;
        &&& c != k
        &&& m2.contains_key(c)
        &&& m2[c].counter_flow_key_hash == k
    } by {
        assert(m.contains_key(k) && !r.contains(k));
        let c = m[k].counter_flow_key_hash;
        assert(m.contains_key(c));
        if r.contains(c) {
            assert(r.contains(m[c].counter_flow_key_hash));
        }
    }
}

/// Fast-path updates that leave the stored counter key alone (the
/// liveness update and the closure markings) preserve pairing, as long
/// as the sibling's pointer stays true as well.
pub proof fn lemma_update_preserves_pairing(m: Map<u64, Flow>, k: u64, f: Flow)
    requires
        paired(m),
        m.contains_key(k),
        f.counter_flow_key_hash == m[k].counter_flow_key_hash,
    ensures
        paired(m.insert(k, f)),
{
    let m2 = m.insert(k, f);
    assert forall|x: u64| #[trigger] m2.contains_key(x) implies {
        let c = m2[x].counter_flow_key_hash;
        &&& c != x
        &&& m2.contains_key(c)
        &&& m2[c].counter_flow_key_hash == x
    } by {
        assert(m.contains_key(x));
        let c = m[x].counter_flow_key_hash;
        assert(m.contains_key(c));
    }
}

/// Monotone liveness: one fast-path update never decreases the
/// transfer counters, and moves the last-seen stamp forward whenever
/// time itself moved forward.
pub proof fn lemma_touched_flow_monotone(f: Flow, size: u64, now_ns: u64)
    ensures
        ({
            let g = touched_flow_spec(f, size, now_ns);
            &&& g.bytes_transfer >= f.bytes_transfer
            &&& g.packets_transfer >= f.packets_transfer
            &&& now_ns >= f.last_seen_ns ==> g.last_seen_ns >= f.last_seen_ns
        }),
{
}

/// Round trip: after an accepted SYN, the table holds a return-path
/// flow under the key `(backend_ip, ephemeral_port)` — the key a
/// backend response is looked up by — whose recipe rewrites the
/// response with the service address the client dialled, addresses it
/// to the original client, and sends it out the interface the SYN
/// arrived on.
pub proof fn lemma_round_trip(
    p: crate::packet::Packet,
    b: Backend,
    dest_map_port: u16,
    t0: Map<u64, Flow>,
    n0: int,
    draws: Seq<u32>,
    now_ns: u64,
)
    requires
        new_flow_result_spec(p, b, dest_map_port, t0, n0, draws, now_ns) is Ok,
    ensures
        ({
            let i = eph_candidate_at(b.ip, t0, draws, 0)->Some_0;
            let ch = flow_key_hash(b.ip, eph_port_of(draws[i]));
            let m2 = new_flow_map_spec(p, b, dest_map_port, t0, n0, draws, now_ns);
            &&& m2.contains_key(ch)
            &&& m2[ch].src_ip == p.spec_dst_ip()
            &&& m2[ch].src_port == p.spec_dst_port()
            &&& m2[ch].dst_ip == p.spec_src_ip()
            &&& m2[ch].dst_port == p.spec_src_port()
            &&& m2[ch].src_iface_idx == p.ingress_ifindex
            &&& m2[ch].dst_mac == p.eth.src_mac
            &&& m2[ch].src_mac == p.eth.dst_mac
        }),
{
}

} // verus!
