//! The userspace maintenance pass over the shared tables: per-tick
//! flow-stats aggregation, backend-table publication with the dense
//! prefix invariant, and the sweep that reaps closed and orphaned
//! flow pairs.

use crate::consts::{MAX_ACTIVE_FLOWS, MAX_BACKENDS};
use crate::flow_table::{
    keys_unique, lemma_map_of_contains, lemma_map_of_get, lemma_map_of_push, lemma_map_of_update,
    map_of, BackendTable, FlowTable,
};
use crate::types::{Backend, Flow, FlowDirection};
use vstd::prelude::*;

verus! {

/// An idle flow is an orphan once nothing has been seen on it for the
/// configured time to live.
pub open spec fn is_orphan_spec(last_seen_ns: u64, now_ns: u64, orphan_ttl_ns: u64) -> bool {
    (if now_ns >= last_seen_ns {
        now_ns - last_seen_ns
    } else {
        0int
    }) >= orphan_ttl_ns
}

pub fn is_orphan(last_seen_ns: u64, now_ns: u64, orphan_ttl_ns: u64) -> (r: bool)
    ensures
        r == is_orphan_spec(last_seen_ns, now_ns, orphan_ttl_ns),
{
    now_ns.saturating_sub(last_seen_ns) >= orphan_ttl_ns
}

/// A flow is active while neither closure path has stamped it.
pub open spec fn is_active_spec(f: Flow) -> bool {
    f.fin_both_ns == 0 && f.rst_ns == 0
}

pub fn is_active(flow: &Flow) -> (r: bool)
    ensures
        r == is_active_spec(*flow),
{
    flow.fin_both_ns == 0 && flow.rst_ns == 0
}

/// A RST-closed flow is ready to count and delete once the RST
/// happened at least one tick ago.
pub open spec fn rst_ready_for_cleanup_spec(rst_ns: u64, last_run_ns: u64) -> bool {
    rst_ns > 0 && rst_ns < last_run_ns
}

pub fn rst_ready_for_cleanup(rst_ns: u64, last_run_ns: u64) -> (r: bool)
    ensures
        r == rst_ready_for_cleanup_spec(rst_ns, last_run_ns),
{
    rst_ns > 0 && rst_ns < last_run_ns
}

/// A FIN-closed flow is ready once the shared closure stamp is older
/// than the time-wait window.
pub open spec fn fin_ready_for_cleanup_spec(
    fin_both_ns: u64,
    now_ns: u64,
    time_wait_ttl_ns: u64,
) -> bool {
    fin_both_ns > 0 && (if now_ns >= fin_both_ns {
        now_ns - fin_both_ns
    } else {
        0int
    }) >= time_wait_ttl_ns
}

pub fn fin_ready_for_cleanup(fin_both_ns: u64, now_ns: u64, time_wait_ttl_ns: u64) -> (r: bool)
    ensures
        r == fin_ready_for_cleanup_spec(fin_both_ns, now_ns, time_wait_ttl_ns),
{
    fin_both_ns > 0 && now_ns.saturating_sub(fin_both_ns) >= time_wait_ttl_ns
}

/// Whether a flow's counters grew past the previous tick's snapshot
/// only counts events inside the tick window.
pub open spec fn is_new_event_spec(f: Flow, event_ns: u64) -> bool {
    f.created_at_ns > event_ns
}

pub open spec fn is_fin_event_spec(f: Flow, event_ns: u64, now_ns: u64) -> bool {
    f.fin_both_ns >= event_ns && f.fin_both_ns <= now_ns
}

pub open spec fn is_rst_event_spec(f: Flow, event_ns: u64, now_ns: u64) -> bool {
    f.rst_ns >= event_ns && f.rst_ns <= now_ns
}

/// Per-direction metric records exported each tick; counters are
/// deltas since the previous export, gauges instantaneous.
#[derive(Debug, Clone, Copy, PartialEq, Eq)]
pub struct Metrics {
    /// Current active clients (unique client IPs).
    pub active_clients: u32,
    /// Current active connections.
    pub active_conns: u32,
    /// New connections since last poll.
    pub new_conns: u32,
    /// Total closed connections regardless of source.
    pub closed_total_conns: u32,
    pub closed_fin_by_client: u32,
    pub closed_fin_by_server: u32,
    pub closed_rsts_by_client: u32,
    pub closed_rsts_by_server: u32,
    /// Orphaned connections observed (idle timeout).
    pub orphaned_conns: u32,
    /// Bytes transferred since the last poll.
    pub bytes_transfer: u64,
    /// Packets transferred since the last poll.
    pub packets_transfer: u64,
}

impl Metrics {
    pub fn zero() -> (r: Metrics)
        ensures
            r == (Metrics {
                active_clients: 0,
                active_conns: 0,
                new_conns: 0,
                closed_total_conns: 0,
                closed_fin_by_client: 0,
                closed_fin_by_server: 0,
                closed_rsts_by_client: 0,
                closed_rsts_by_server: 0,
                orphaned_conns: 0,
                bytes_transfer: 0,
                packets_transfer: 0,
            }),
    {
        Metrics {
            active_clients: 0,
            active_conns: 0,
            new_conns: 0,
            closed_total_conns: 0,
            closed_fin_by_client: 0,
            closed_fin_by_server: 0,
            closed_rsts_by_client: 0,
            closed_rsts_by_server: 0,
            orphaned_conns: 0,
            bytes_transfer: 0,
            packets_transfer: 0,
        }
    }
}

/// The exact (unclipped) totals a metric record accumulates.
pub struct MetricsCount {
    pub new_conns: int,
    pub closed_total_conns: int,
    pub closed_fin_by_client: int,
    pub closed_fin_by_server: int,
    pub closed_rsts_by_client: int,
    pub closed_rsts_by_server: int,
    pub orphaned_conns: int,
    pub active_conns: int,
    pub bytes_transfer: int,
    pub packets_transfer: int,
}

pub open spec fn zero_counts() -> MetricsCount {
    MetricsCount {
        new_conns: 0,
        closed_total_conns: 0,
        closed_fin_by_client: 0,
        closed_fin_by_server: 0,
        closed_rsts_by_client: 0,
        closed_rsts_by_server: 0,
        orphaned_conns: 0,
        active_conns: 0,
        bytes_transfer: 0,
        packets_transfer: 0,
    }
}

/// Whether a flow contributes to the record for direction `d`,
/// restricted to one backend when `bf` names one.
pub open spec fn flow_matches(f: Flow, d: FlowDirection, bf: Option<u128>) -> bool {
    f.direction == d && (match bf {
        None => true,
        Some(ip) => f.backend_ip == ip,
    })
}

/// The snapshot a flow was at on the previous tick, zero when unseen.
pub open spec fn prev_of(prev: Map<u64, (u64, u64)>, k: u64) -> (u64, u64) {
    if prev.contains_key(k) {
        prev[k]
    } else {
        (0u64, 0u64)
    }
}

/// One flow's contribution to a per-direction record: transfer deltas
/// against the previous snapshot and one count for the event class the
/// flow falls in this tick.
#[verifier::opaque]
pub open spec fn metrics_step(
    m: MetricsCount,
    k: u64,
    f: Flow,
    d: FlowDirection,
    bf: Option<u128>,
    prev: Map<u64, (u64, u64)>,
    event_ns: u64,
    now_ns: u64,
    orphan_ttl_ns: u64,
) -> MetricsCount {
    if !flow_matches(f, d, bf) {
        m
    } else {
        let delta_b = if f.bytes_transfer >= prev_of(prev, k).0 {
            f.bytes_transfer - prev_of(prev, k).0
        } else {
            0int
        };
        let delta_p = if f.packets_transfer >= prev_of(prev, k).1 {
            f.packets_transfer - prev_of(prev, k).1
        } else {
            0int
        };
        let fin_evt = is_fin_event_spec(f, event_ns, now_ns) && f.fin_is_src;
        let rst_evt = !fin_evt && is_rst_event_spec(f, event_ns, now_ns) && f.rst_is_src;
        let orphan = is_orphan_spec(f.last_seen_ns, now_ns, orphan_ttl_ns);
        let orphan_evt = !fin_evt && !rst_evt && orphan;
        let active = is_active_spec(f) && !orphan;
        MetricsCount {
            new_conns: m.new_conns + if is_new_event_spec(f, event_ns) {
                1int
            } else {
                0
            },
            closed_fin_by_client: m.closed_fin_by_client + if fin_evt && d
                == FlowDirection::ToServer {
                1int
            } else {
                0
            },
            closed_fin_by_server: m.closed_fin_by_server + if fin_evt && d
                == FlowDirection::ToClient {
                1int
            } else {
                0
            },
            closed_rsts_by_client: m.closed_rsts_by_client + if rst_evt && d
                == FlowDirection::ToServer {
                1int
            } else {
                0
            },
            closed_rsts_by_server: m.closed_rsts_by_server + if rst_evt && d
                == FlowDirection::ToClient {
                1int
            } else {
                0
            },
            closed_total_conns: m.closed_total_conns + if fin_evt || rst_evt {
                1int
            } else {
                0
            },
            orphaned_conns: m.orphaned_conns + if orphan_evt {
                1int
            } else {
                0
            },
            active_conns: m.active_conns + if active {
                1int
            } else {
                0
            },
            bytes_transfer: m.bytes_transfer + delta_b,
            packets_transfer: m.packets_transfer + delta_p,
        }
    }
}

/// The record accumulated over a sequence of flow entries.
#[verifier::opaque]
pub open spec fn metrics_fold(
    s: Seq<(u64, Flow)>,
    d: FlowDirection,
    bf: Option<u128>,
    prev: Map<u64, (u64, u64)>,
    event_ns: u64,
    now_ns: u64,
    orphan_ttl_ns: u64,
) -> MetricsCount
    decreases s.len(),
{
    if s.len() == 0 {
        zero_counts()
    } else {
        metrics_step(
            metrics_fold(s.drop_last(), d, bf, prev, event_ns, now_ns, orphan_ttl_ns),
            s.last().0,
            s.last().1,
            d,
            bf,
            prev,
            event_ns,
            now_ns,
            orphan_ttl_ns,
        )
    }
}

/// An exported record matches the exact totals when the counters agree
/// (they never clip below the table capacity) and the transfer sums
/// saturate at the top of u64.
pub open spec fn metrics_matches(m: Metrics, c: MetricsCount) -> bool {
    &&& m.new_conns == c.new_conns
    &&& m.closed_total_conns == c.closed_total_conns
    &&& m.closed_fin_by_client == c.closed_fin_by_client
    &&& m.closed_fin_by_server == c.closed_fin_by_server
    &&& m.closed_rsts_by_client == c.closed_rsts_by_client
    &&& m.closed_rsts_by_server == c.closed_rsts_by_server
    &&& m.orphaned_conns == c.orphaned_conns
    &&& m.active_conns == c.active_conns
    &&& m.bytes_transfer == (if c.bytes_transfer > 0xffff_ffff_ffff_ffffint {
        0xffff_ffff_ffff_ffffint
    } else {
        c.bytes_transfer
    })
    &&& m.packets_transfer == (if c.packets_transfer > 0xffff_ffff_ffff_ffffint {
        0xffff_ffff_ffff_ffffint
    } else {
        c.packets_transfer
    })
}

/// A flow seen in `s` makes `ip` an active client of the backend named
/// by `bf` (or of the balancer as a whole).
pub open spec fn has_active_client(
    s: Seq<(u64, Flow)>,
    bf: Option<u128>,
    ip: u128,
    now_ns: u64,
    orphan_ttl_ns: u64,
) -> bool {
    exists|j: int| 0 <= j < s.len() && {
        let f = (#[trigger] s[j]).1;
        &&& f.direction == FlowDirection::ToServer
        &&& f.client_ip == ip
        &&& is_active_spec(f)
        &&& !is_orphan_spec(f.last_seen_ns, now_ns, orphan_ttl_ns)
        &&& (match bf {
            None => true,
            Some(b) => f.backend_ip == b,
        })
    }
}

/// Totals and per-backend buckets for one tick, each holding records
/// for the two directions and the distinct active clients seen.
#[derive(Debug)]
pub struct AggregateFlowStats {
    pub clients: Vec<u128>,
    pub to_server: Metrics,
    pub to_client: Metrics,
}

/// The whole of one tick's aggregation.
#[derive(Debug)]
pub struct LbFlowStats {
    pub totals: AggregateFlowStats,
    pub backends: Vec<(u128, AggregateFlowStats)>,
    /// Number of available backends from the provider.
    pub available_backends: u32,
}

/// The per-flow transfer snapshot the next tick's deltas are computed
/// against, keyed by flow-key hash.
#[derive(Debug)]
pub struct SnapshotMap {
    entries: Vec<(u64, (u64, u64))>,
}

impl SnapshotMap {
    pub closed spec fn entries_seq(&self) -> Seq<(u64, (u64, u64))> {
        self.entries@
    }

    pub open spec fn view(&self) -> Map<u64, (u64, u64)> {
        map_of(self.entries_seq())
    }

    pub open spec fn wf(&self) -> bool {
        keys_unique(self.entries_seq())
    }

    pub fn new() -> (r: Self)
        ensures
            r.wf(),
            r@ =~= Map::<u64, (u64, u64)>::empty(),
    {
        SnapshotMap { entries: Vec::new() }
    }

    pub fn get(&self, k: u64) -> (r: Option<(u64, u64)>)
        requires
            self.wf(),
        ensures
            match r {
                Some(v) => self@.contains_key(k) && self@[k] == v,
                None => !self@.contains_key(k),
            },
    {
        let n = self.entries.len();
        let mut i: usize = 0;
        while i < n
            invariant
                self.wf(),
                n == self.entries_seq().len(),
                i <= n,
                forall|j: int| 0 <= j < i ==> (#[trigger] self.entries_seq()[j]).0 != k,
            decreases n - i,
        {
            if self.entries[i].0 == k {
                proof {
                    lemma_map_of_get(self.entries_seq(), i as int);
                }
                return Some(self.entries[i].1);
            }
            i = i + 1;
        }
        proof {
            lemma_map_of_contains(self.entries_seq(), k);
        }
        None
    }

    pub fn insert(&mut self, k: u64, v: (u64, u64))
        requires
            old(self).wf(),
        ensures
            final(self).wf(),
            final(self)@ =~= old(self)@.insert(k, v),
    {
        let n = self.entries.len();
        let mut i: usize = 0;
        while i < n
            invariant
                *self == *old(self),
                self.wf(),
                n == self.entries_seq().len(),
                i <= n,
                forall|j: int| 0 <= j < i ==> (#[trigger] self.entries_seq()[j]).0 != k,
            decreases n - i,
        {
            if self.entries[i].0 == k {
                proof {
                    lemma_map_of_update(self.entries_seq(), i as int, v);
                    lemma_map_of_get(self.entries_seq(), i as int);
                }
                self.entries[i] = (k, v);
                return ;
            }
            i = i + 1;
        }
        proof {
            lemma_map_of_contains(self.entries_seq(), k);
            lemma_map_of_push(self.entries_seq(), k, v);
        }
        self.entries.push((k, v));
    }
}

/// The transfer snapshot a sequence of flow entries denotes.
pub open spec fn snapshot_of(s: Seq<(u64, Flow)>) -> Map<u64, (u64, u64)>
    decreases s.len(),
{
    if s.len() == 0 {
        Map::empty()
    } else {
        snapshot_of(s.drop_last()).insert(
            s.last().0,
            (s.last().1.bytes_transfer, s.last().1.packets_transfer),
        )
    }
}

/// Every count a record accumulates is bounded by the number of
/// entries folded.
pub proof fn lemma_metrics_fold_bounds(
    s: Seq<(u64, Flow)>,
    d: FlowDirection,
    bf: Option<u128>,
    prev: Map<u64, (u64, u64)>,
    event_ns: u64,
    now_ns: u64,
    orphan_ttl_ns: u64,
)
    ensures
        ({
            let c = metrics_fold(s, d, bf, prev, event_ns, now_ns, orphan_ttl_ns);
            &&& 0 <= c.new_conns <= s.len()
            &&& 0 <= c.closed_total_conns <= s.len()
            &&& 0 <= c.closed_fin_by_client <= s.len()
            &&& 0 <= c.closed_fin_by_server <= s.len()
            &&& 0 <= c.closed_rsts_by_client <= s.len()
            &&& 0 <= c.closed_rsts_by_server <= s.len()
            &&& 0 <= c.orphaned_conns <= s.len()
            &&& 0 <= c.active_conns <= s.len()
            &&& 0 <= c.bytes_transfer
            &&& 0 <= c.packets_transfer
        }),
    decreases s.len(),
{
    reveal(metrics_step);
    reveal(metrics_fold);
    if s.len() > 0 {
        lemma_metrics_fold_bounds(s.drop_last(), d, bf, prev, event_ns, now_ns, orphan_ttl_ns);
    }
}

/// A fold over entries none of which match the filter accumulates
/// nothing.
pub proof fn lemma_metrics_fold_absent(
    s: Seq<(u64, Flow)>,
    d: FlowDirection,
    backend_ip: u128,
    prev: Map<u64, (u64, u64)>,
    event_ns: u64,
    now_ns: u64,
    orphan_ttl_ns: u64,
)
    requires
        forall|j: int| 0 <= j < s.len() ==> (#[trigger] s[j]).1.backend_ip != backend_ip,
    ensures
        metrics_fold(s, d, Some(backend_ip), prev, event_ns, now_ns, orphan_ttl_ns)
            == zero_counts(),
    decreases s.len(),
{
    if s.len() > 0 {
        assert(forall|j: int| 0 <= j < s.drop_last().len() ==> (#[trigger] s.drop_last()[
            j]).1.backend_ip != backend_ip);
        lemma_metrics_fold_absent(s.drop_last(), d, backend_ip, prev, event_ns, now_ns,
            orphan_ttl_ns);
    }
    reveal(metrics_step);
    reveal(metrics_fold);
}

fn vec_contains_u128(v: &Vec<u128>, x: u128) -> (r: bool)
    ensures
        r == v@.contains(x),
{
    let mut i: usize = 0;
    while i < v.len()
        invariant
            i <= v@.len(),
            forall|j: int| 0 <= j < i ==> v@[j] != x,
        decreases v@.len() - i,
    {
        if v[i] == x {
            return true;
        }
        i = i + 1;
    }
    false
}

fn find_bucket(buckets: &Vec<(u128, AggregateFlowStats)>, ip: u128) -> (r: Option<usize>)
    ensures
        match r {
            Some(b) => b < buckets@.len() && buckets@[b as int].0 == ip,
            None => forall|b: int| 0 <= b < buckets@.len() ==> (#[trigger] buckets@[b]).0 != ip,
        },
{
    let mut i: usize = 0;
    while i < buckets.len()
        invariant
            i <= buckets@.len(),
            forall|b: int| 0 <= b < i ==> (#[trigger] buckets@[b]).0 != ip,
        decreases buckets@.len() - i,
    {
        if buckets[i].0 == ip {
            return Some(i);
        }
        i = i + 1;
    }
    None
}

/// Unrolling one entry off the tail of a fold.
proof fn lemma_metrics_fold_unfold(
    s: Seq<(u64, Flow)>,
    d: FlowDirection,
    bf: Option<u128>,
    prev: Map<u64, (u64, u64)>,
    event_ns: u64,
    now_ns: u64,
    orphan_ttl_ns: u64,
)
    requires
        s.len() > 0,
    ensures
        metrics_fold(s, d, bf, prev, event_ns, now_ns, orphan_ttl_ns) == metrics_step(
            metrics_fold(s.drop_last(), d, bf, prev, event_ns, now_ns, orphan_ttl_ns),
            s.last().0,
            s.last().1,
            d,
            bf,
            prev,
            event_ns,
            now_ns,
            orphan_ttl_ns,
        ),
{
    reveal(metrics_fold);
}

/// A fold over nothing accumulates nothing.
proof fn lemma_metrics_fold_empty(
    s: Seq<(u64, Flow)>,
    d: FlowDirection,
    bf: Option<u128>,
    prev: Map<u64, (u64, u64)>,
    event_ns: u64,
    now_ns: u64,
    orphan_ttl_ns: u64,
)
    requires
        s.len() == 0,
    ensures
        metrics_fold(s, d, bf, prev, event_ns, now_ns, orphan_ttl_ns) == zero_counts(),
{
    reveal(metrics_fold);
}

/// A flow outside the record's direction or backend leaves the record
/// untouched.
proof fn lemma_metrics_step_skip(
    m: MetricsCount,
    k: u64,
    f: Flow,
    d: FlowDirection,
    bf: Option<u128>,
    prev: Map<u64, (u64, u64)>,
    event_ns: u64,
    now_ns: u64,
    orphan_ttl_ns: u64,
)
    requires
        !flow_matches(f, d, bf),
    ensures
        metrics_step(m, k, f, d, bf, prev, event_ns, now_ns, orphan_ttl_ns) == m,
{
    reveal(metrics_step);
}

/// Fold one flow into a per-direction record, mirroring
/// `metrics_step` with saturation at the top of each counter.
fn metrics_apply(
    m: Metrics,
    f: &Flow,
    contributes: bool,
    record_is_to_server: bool,
    delta_b: u64,
    delta_p: u64,
    is_new: bool,
    fin_evt: bool,
    rst_evt: bool,
    orphan_evt: bool,
    active: bool,
    Ghost(c): Ghost<MetricsCount>,
    Ghost(k): Ghost<u64>,
    Ghost(d): Ghost<FlowDirection>,
    Ghost(bf): Ghost<Option<u128>>,
    Ghost(prev): Ghost<Map<u64, (u64, u64)>>,
    Ghost(event_ns): Ghost<u64>,
    Ghost(now_ns): Ghost<u64>,
    Ghost(orphan_ttl_ns): Ghost<u64>,
) -> (r: Metrics)
    requires
        metrics_matches(m, c),
        c.new_conns < 0xffff_fffe,
        c.closed_total_conns < 0xffff_fffe,
        c.closed_fin_by_client < 0xffff_fffe,
        c.closed_fin_by_server < 0xffff_fffe,
        c.closed_rsts_by_client < 0xffff_fffe,
        c.closed_rsts_by_server < 0xffff_fffe,
        c.orphaned_conns < 0xffff_fffe,
        c.active_conns < 0xffff_fffe,
        contributes == flow_matches(*f, d, bf),
        record_is_to_server == (d == FlowDirection::ToServer),
        contributes ==> delta_b == (if f.bytes_transfer >= prev_of(prev, k).0 {
            f.bytes_transfer - prev_of(prev, k).0
        } else {
            0int
        }),
        contributes ==> delta_p == (if f.packets_transfer >= prev_of(prev, k).1 {
            f.packets_transfer - prev_of(prev, k).1
        } else {
            0int
        }),
        is_new == is_new_event_spec(*f, event_ns),
        fin_evt == (is_fin_event_spec(*f, event_ns, now_ns) && f.fin_is_src),
        rst_evt == (!fin_evt && is_rst_event_spec(*f, event_ns, now_ns) && f.rst_is_src),
        orphan_evt == (!fin_evt && !rst_evt && is_orphan_spec(f.last_seen_ns, now_ns,
        orphan_ttl_ns)),
        active == (is_active_spec(*f) && !is_orphan_spec(f.last_seen_ns, now_ns, orphan_ttl_ns)),
    ensures
        metrics_matches(r, metrics_step(c, k, *f, d, bf, prev, event_ns, now_ns, orphan_ttl_ns)),
{
    proof {
        reveal(metrics_step);
    }
    if !contributes {
        return m;
    }
    Metrics {
        active_clients: m.active_clients,
        new_conns: m.new_conns + if is_new {
            1
        } else {
            0
        },
        closed_fin_by_client: m.closed_fin_by_client + if fin_evt && record_is_to_server {
            1
        } else {
            0
        },
        closed_fin_by_server: m.closed_fin_by_server + if fin_evt && !record_is_to_server {
            1
        } else {
            0
        },
        closed_rsts_by_client: m.closed_rsts_by_client + if rst_evt && record_is_to_server {
            1
        } else {
            0
        },
        closed_rsts_by_server: m.closed_rsts_by_server + if rst_evt && !record_is_to_server {
            1
        } else {
            0
        },
        closed_total_conns: m.closed_total_conns + if fin_evt || rst_evt {
            1
        } else {
            0
        },
        orphaned_conns: m.orphaned_conns + if orphan_evt {
            1
        } else {
            0
        },
        active_conns: m.active_conns + if active {
            1
        } else {
            0
        },
        bytes_transfer: m.bytes_transfer.saturating_add(delta_b),
        packets_transfer: m.packets_transfer.saturating_add(delta_p),
    }
}

/// A collection of distinct client addresses exactly tracks the
/// active ToServer flows of the entries seen.
pub open spec fn clients_ok(
    cl: Seq<u128>,
    s: Seq<(u64, Flow)>,
    bf: Option<u128>,
    now_ns: u64,
    orphan_ttl_ns: u64,
) -> bool {
    &&& forall|a: int, b: int| 0 <= a < b < cl.len() ==> cl[a] != cl[b]
    &&& forall|ip: u128| #[trigger] cl.contains(ip) <==> has_active_client(
        s,
        bf,
        ip,
        now_ns,
        orphan_ttl_ns,
    )
}

pub open spec fn bucket_keys_unique(bs: Seq<(u128, AggregateFlowStats)>) -> bool {
    forall|a: int, b: int| 0 <= a < b < bs.len() ==> (#[trigger] bs[a]).0 != (#[trigger] bs[b]).0
}

pub open spec fn buckets_contain(bs: Seq<(u128, AggregateFlowStats)>, ip: u128) -> bool {
    exists|b: int| 0 <= b < bs.len() && (#[trigger] bs[b]).0 == ip
}

/// One backend's bucket is exactly the fold of the entries restricted
/// to that backend.
pub open spec fn bucket_ok(
    key: u128,
    st: AggregateFlowStats,
    s: Seq<(u64, Flow)>,
    prev: Map<u64, (u64, u64)>,
    event_ns: u64,
    now_ns: u64,
    orphan_ttl_ns: u64,
) -> bool {
    &&& metrics_matches(
        st.to_server,
        metrics_fold(
            s,
            FlowDirection::ToServer,
            Some(key),
            prev,
            event_ns,
            now_ns,
            orphan_ttl_ns,
        ),
    )
    &&& metrics_matches(
        st.to_client,
        metrics_fold(
            s,
            FlowDirection::ToClient,
            Some(key),
            prev,
            event_ns,
            now_ns,
            orphan_ttl_ns,
        ),
    )
}

/// Appending one entry extends the active-client relation by exactly
/// that entry's client, when it is an active ToServer flow of the
/// filtered backend.
proof fn lemma_client_extend(
    s: Seq<(u64, Flow)>,
    e: (u64, Flow),
    bf: Option<u128>,
    now_ns: u64,
    orphan_ttl_ns: u64,
)
    ensures
        forall|ip: u128| #[trigger] has_active_client(s.push(e), bf, ip, now_ns, orphan_ttl_ns)
            <==> (has_active_client(s, bf, ip, now_ns, orphan_ttl_ns) || (e.1.direction
            == FlowDirection::ToServer && is_active_spec(e.1) && !is_orphan_spec(
            e.1.last_seen_ns,
            now_ns,
            orphan_ttl_ns,
        ) && (match bf {
            None => true,
            Some(b) => e.1.backend_ip == b,
        }) && ip == e.1.client_ip)),
{
    let s2 = s.push(e);
    assert forall|ip: u128| #[trigger] has_active_client(s2, bf, ip, now_ns, orphan_ttl_ns)
        implies (has_active_client(s, bf, ip, now_ns, orphan_ttl_ns) || (e.1.direction
        == FlowDirection::ToServer && is_active_spec(e.1) && !is_orphan_spec(
        e.1.last_seen_ns,
        now_ns,
        orphan_ttl_ns,
    ) && (match bf {
        None => true,
        Some(b) => e.1.backend_ip == b,
    }) && ip == e.1.client_ip)) by {
        let j = choose|j: int| 0 <= j < s2.len() && {
            let f = (#[trigger] s2[j]).1;
            &&& f.direction == FlowDirection::ToServer
            &&& f.client_ip == ip
            &&& is_active_spec(f)
            &&& !is_orphan_spec(f.last_seen_ns, now_ns, orphan_ttl_ns)
            &&& (match bf {
                None => true,
                Some(b) => f.backend_ip == b,
            })
        };
        if j < s.len() {
            assert(s[j] == s2[j]);
        } else {
            assert(s2[j] == e);
        }
    }
    assert forall|ip: u128|
        (has_active_client(s, bf, ip, now_ns, orphan_ttl_ns) || (e.1.direction
            == FlowDirection::ToServer && is_active_spec(e.1) && !is_orphan_spec(
            e.1.last_seen_ns,
            now_ns,
            orphan_ttl_ns,
        ) && (match bf {
            None => true,
            Some(b) => e.1.backend_ip == b,
        }) && ip == e.1.client_ip)) implies #[trigger] has_active_client(
        s2,
        bf,
        ip,
        now_ns,
        orphan_ttl_ns,
    ) by {
        if has_active_client(s, bf, ip, now_ns, orphan_ttl_ns) {
            let j = choose|j: int| 0 <= j < s.len() && {
                let f = (#[trigger] s[j]).1;
                &&& f.direction == FlowDirection::ToServer
                &&& f.client_ip == ip
                &&& is_active_spec(f)
                &&& !is_orphan_spec(f.last_seen_ns, now_ns, orphan_ttl_ns)
                &&& (match bf {
                    None => true,
                    Some(b) => f.backend_ip == b,
                })
            };
            assert(s2[j] == s[j]);
        } else {
            assert(s2[s.len() as int] == e);
        }
    }
}

/// Appending a fresh element to a distinct collection keeps it
/// distinct and extends membership by exactly that element.
proof fn lemma_push_contains<A>(v: Seq<A>, x: A)
    ensures
        forall|ip: A| #[trigger] v.push(x).contains(ip) <==> (v.contains(ip) || ip == x),
        ((forall|a: int, b: int| 0 <= a < b < v.len() ==> v[a] != v[b]) && !v.contains(x))
            ==> (forall|a: int, b: int| 0 <= a < b < v.push(x).len() ==> v.push(x)[a] != v.push(
            x,
        )[b]),
{
    let v2 = v.push(x);
    assert forall|ip: A| #[trigger] v2.contains(ip) implies (v.contains(ip) || ip == x) by {
        let j = choose|j: int| 0 <= j < v2.len() && v2[j] == ip;
        if j < v.len() {
            assert(v[j] == ip);
        }
    }
    assert forall|ip: A| (v.contains(ip) || ip == x) implies #[trigger] v2.contains(ip) by {
        if v.contains(ip) {
            let j = choose|j: int| 0 <= j < v.len() && v[j] == ip;
            assert(v2[j] == ip);
        } else {
            assert(v2[v.len() as int] == ip);
        }
    }
    if (forall|a: int, b: int| 0 <= a < b < v.len() ==> v[a] != v[b]) && !v.contains(x) {
        assert forall|a: int, b: int| 0 <= a < b < v2.len() implies v2[a] != v2[b] by {
            if b < v.len() {
            } else {
                assert(v2[b] == x);
                assert(v[a] == v2[a]);
                assert(v.contains(v[a]));
            }
        }
    }
}

/// One entry extends a client collection correctly: the collection
/// gains exactly the entry's client when it is a fresh active
/// ToServer flow of the filtered backend.
proof fn lemma_clients_ok_step(
    cl0: Seq<u128>,
    cl1: Seq<u128>,
    prefix: Seq<(u64, Flow)>,
    e: (u64, Flow),
    bf: Option<u128>,
    now_ns: u64,
    orphan_ttl_ns: u64,
)
    requires
        clients_ok(cl0, prefix, bf, now_ns, orphan_ttl_ns),
        ({
            let adds = e.1.direction == FlowDirection::ToServer && is_active_spec(e.1)
                && !is_orphan_spec(e.1.last_seen_ns, now_ns, orphan_ttl_ns) && (match bf {
                None => true,
                Some(b) => e.1.backend_ip == b,
            });
            if adds && !cl0.contains(e.1.client_ip) {
                cl1 == cl0.push(e.1.client_ip)
            } else {
                cl1 == cl0
            }
        }),
    ensures
        clients_ok(cl1, prefix.push(e), bf, now_ns, orphan_ttl_ns),
{
    lemma_client_extend(prefix, e, bf, now_ns, orphan_ttl_ns);
    let adds = e.1.direction == FlowDirection::ToServer && is_active_spec(e.1)
        && !is_orphan_spec(e.1.last_seen_ns, now_ns, orphan_ttl_ns) && (match bf {
        None => true,
        Some(b) => e.1.backend_ip == b,
    });
    if adds && !cl0.contains(e.1.client_ip) {
        lemma_push_contains(cl0, e.1.client_ip);
    }
}

/// Everything one tick's aggregation promises of its result, over the
/// entry sequence it read and the previous snapshot it diffed against.
pub open spec fn aggregation_ok(
    st: LbFlowStats,
    s: Seq<(u64, Flow)>,
    prev: Map<u64, (u64, u64)>,
    event_ns: u64,
    now_ns: u64,
    orphan_ttl_ns: u64,
) -> bool {
    &&& metrics_matches(
                st.totals.to_server,
                metrics_fold(
                    s,
                    FlowDirection::ToServer,
                    None,
                    prev,
                    event_ns,
                    now_ns,
                    orphan_ttl_ns,
                ),
            )
            &&& metrics_matches(
                st.totals.to_client,
                metrics_fold(
                    s,
                    FlowDirection::ToClient,
                    None,
                    prev,
                    event_ns,
                    now_ns,
                    orphan_ttl_ns,
                ),
            )
            &&& clients_ok(st.totals.clients@, s, None, now_ns, orphan_ttl_ns)
            &&& st.totals.to_server.active_clients == (if st.totals.clients@.len()
                > 0xffff_ffff {
                0xffff_ffffint
            } else {
                st.totals.clients@.len() as int
            })
            &&& st.totals.to_client.active_clients == st.totals.to_server.active_clients
            &&& bucket_keys_unique(st.backends@)
            &&& forall|b: int| 0 <= b < st.backends@.len() ==> bucket_ok(
                (#[trigger] st.backends@[b]).0,
                st.backends@[b].1,
                s,
                prev,
                event_ns,
                now_ns,
                orphan_ttl_ns,
            ) && st.backends@[b].1.to_server.active_clients == (if st.backends@[
                b].1.clients@.len() > 0xffff_ffff {
                0xffff_ffffint
            } else {
                st.backends@[b].1.clients@.len() as int
            }) && st.backends@[b].1.to_client.active_clients == st.backends@[
                b].1.to_server.active_clients
            &&& forall|j: int| 0 <= j < s.len() ==> buckets_contain(
                st.backends@,
                (#[trigger] s[j]).1.backend_ip,
            )
            &&& st.available_backends == 0
}

/// Packaging lemma: the aggregation promises, taken one by one, give
/// the packaged predicate.
proof fn lemma_aggregation_ok_intro(
    st: LbFlowStats,
    s: Seq<(u64, Flow)>,
    prev: Map<u64, (u64, u64)>,
    event_ns: u64,
    now_ns: u64,
    orphan_ttl_ns: u64,
)
    requires
        ({
    &&& metrics_matches(
                st.totals.to_server,
                metrics_fold(
                    s,
                    FlowDirection::ToServer,
                    None,
                    prev,
                    event_ns,
                    now_ns,
                    orphan_ttl_ns,
                ),
            )
            &&& metrics_matches(
                st.totals.to_client,
                metrics_fold(
                    s,
                    FlowDirection::ToClient,
                    None,
                    prev,
                    event_ns,
                    now_ns,
                    orphan_ttl_ns,
                ),
            )
            &&& clients_ok(st.totals.clients@, s, None, now_ns, orphan_ttl_ns)
            &&& st.totals.to_server.active_clients == (if st.totals.clients@.len()
                > 0xffff_ffff {
                0xffff_ffffint
            } else {
                st.totals.clients@.len() as int
            })
            &&& st.totals.to_client.active_clients == st.totals.to_server.active_clients
            &&& bucket_keys_unique(st.backends@)
            &&& forall|b: int| 0 <= b < st.backends@.len() ==> bucket_ok(
                (#[trigger] st.backends@[b]).0,
                st.backends@[b].1,
                s,
                prev,
                event_ns,
                now_ns,
                orphan_ttl_ns,
            ) && st.backends@[b].1.to_server.active_clients == (if st.backends@[
                b].1.clients@.len() > 0xffff_ffff {
                0xffff_ffffint
            } else {
                st.backends@[b].1.clients@.len() as int
            }) && st.backends@[b].1.to_client.active_clients == st.backends@[
                b].1.to_server.active_clients
            &&& forall|j: int| 0 <= j < s.len() ==> buckets_contain(
                st.backends@,
                (#[trigger] s[j]).1.backend_ip,
            )
            &&& st.available_backends == 0
        }),
    ensures
        aggregation_ok(st, s, prev, event_ns, now_ns, orphan_ttl_ns),
{
}

/// The single pass over the flow table: totals, buckets, client
/// collections and the fresh snapshot, before the active-client
/// gauges are filled in.
#[verifier::rlimit(100)]
#[verifier::spinoff_prover]
fn aggregate_pass(
    event_ns: u64,
    flows: &FlowTable,
    prev_flow_stats: &SnapshotMap,
    orphan_ttl_ns: u64,
    now_ns: u64,
) -> (r: (Metrics, Metrics, Vec<u128>, Vec<(u128, AggregateFlowStats)>, SnapshotMap))
    requires
        flows.wf(),
        prev_flow_stats.wf(),
    ensures
        ({
            let s = flows.entries_seq();
            let prev = prev_flow_stats@;
            &&& metrics_matches(
                r.0,
                metrics_fold(
                    s,
                    FlowDirection::ToServer,
                    None,
                    prev,
                    event_ns,
                    now_ns,
                    orphan_ttl_ns,
                ),
            )
            &&& metrics_matches(
                r.1,
                metrics_fold(
                    s,
                    FlowDirection::ToClient,
                    None,
                    prev,
                    event_ns,
                    now_ns,
                    orphan_ttl_ns,
                ),
            )
            &&& clients_ok(r.2@, s, None, now_ns, orphan_ttl_ns)
            &&& bucket_keys_unique(r.3@)
            &&& forall|b: int| 0 <= b < r.3@.len() ==> bucket_ok(
                (#[trigger] r.3@[b]).0,
                r.3@[b].1,
                s,
                prev,
                event_ns,
                now_ns,
                orphan_ttl_ns,
            )
            &&& forall|b: int| 0 <= b < r.3@.len() ==> exists|j: int| 0 <= j < s.len()
                && (#[trigger] s[j]).1.backend_ip == (#[trigger] r.3@[b]).0
            &&& forall|j: int| 0 <= j < s.len() ==> buckets_contain(
                r.3@,
                (#[trigger] s[j]).1.backend_ip,
            )
            &&& r.4.wf()
            &&& r.4@ =~= snapshot_of(s)
        }),
{
    let ghost s_all = flows.entries_seq();
    let ghost prevm = prev_flow_stats@;
    let mut totals_ts = Metrics::zero();
    let mut totals_tc = Metrics::zero();
    let mut totals_clients: Vec<u128> = Vec::new();
    let mut buckets: Vec<(u128, AggregateFlowStats)> = Vec::new();
    let mut snap = SnapshotMap::new();
    proof {
        assert(s_all.subrange(0, 0) =~= Seq::<(u64, Flow)>::empty());
        lemma_metrics_fold_empty(
            s_all.subrange(0, 0),
            FlowDirection::ToServer,
            None,
            prevm,
            event_ns,
            now_ns,
            orphan_ttl_ns,
        );
        lemma_metrics_fold_empty(
            s_all.subrange(0, 0),
            FlowDirection::ToClient,
            None,
            prevm,
            event_ns,
            now_ns,
            orphan_ttl_ns,
        );
    }
    let n = flows.len();
    let mut i: usize = 0;
    while i < n
        invariant
            flows.wf(),
            prev_flow_stats.wf(),
            s_all == flows.entries_seq(),
            prevm == prev_flow_stats@,
            n == s_all.len(),
            n <= MAX_ACTIVE_FLOWS,
            i <= n,
            metrics_matches(
                totals_ts,
                metrics_fold(
                    s_all.subrange(0, i as int),
                    FlowDirection::ToServer,
                    None,
                    prevm,
                    event_ns,
                    now_ns,
                    orphan_ttl_ns,
                ),
            ),
            metrics_matches(
                totals_tc,
                metrics_fold(
                    s_all.subrange(0, i as int),
                    FlowDirection::ToClient,
                    None,
                    prevm,
                    event_ns,
                    now_ns,
                    orphan_ttl_ns,
                ),
            ),
            clients_ok(totals_clients@, s_all.subrange(0, i as int), None, now_ns, orphan_ttl_ns),
            bucket_keys_unique(buckets@),
            forall|b: int| 0 <= b < buckets@.len() ==> bucket_ok(
                (#[trigger] buckets@[b]).0,
                buckets@[b].1,
                s_all.subrange(0, i as int),
                prevm,
                event_ns,
                now_ns,
                orphan_ttl_ns,
            ),
            forall|b: int| 0 <= b < buckets@.len() ==> exists|j: int| 0 <= j < i
                && (#[trigger] s_all[j]).1.backend_ip == (#[trigger] buckets@[b]).0,
            forall|j: int| 0 <= j < i ==> buckets_contain(
                buckets@,
                (#[trigger] s_all[j]).1.backend_ip,
            ),
            snap.wf(),
            snap@ =~= snapshot_of(s_all.subrange(0, i as int)),
        decreases n - i,
    {
        let ghost prefix = s_all.subrange(0, i as int);
        let ghost prefix2 = s_all.subrange(0, i + 1);
        let ghost buckets0 = buckets@;
        let (k, f) = flows.entry_at(i);
        proof {
            assert(prefix2.drop_last() =~= prefix);
            assert(prefix2 =~= prefix.push((k, f)));
        }
        let (pb, pp) = match prev_flow_stats.get(k) {
            Some(v) => v,
            None => (0u64, 0u64),
        };
        snap.insert(k, (f.bytes_transfer, f.packets_transfer));

        let is_new = f.created_at_ns > event_ns;
        let fin_evt = f.fin_both_ns >= event_ns && f.fin_both_ns <= now_ns && f.fin_is_src;
        let rst_evt = !fin_evt && f.rst_ns >= event_ns && f.rst_ns <= now_ns && f.rst_is_src;
        let orphan = is_orphan(f.last_seen_ns, now_ns, orphan_ttl_ns);
        let orphan_evt = !fin_evt && !rst_evt && orphan;
        let active = is_active(&f) && !orphan;
        let delta_b = f.bytes_transfer.saturating_sub(pb);
        let delta_p = f.packets_transfer.saturating_sub(pp);

        let bi = match find_bucket(&buckets, f.backend_ip) {
            Some(b) => b,
            None => {
                proof {
                    lemma_metrics_fold_absent(
                        prefix,
                        FlowDirection::ToServer,
                        f.backend_ip,
                        prevm,
                        event_ns,
                        now_ns,
                        orphan_ttl_ns,
                    );
                    lemma_metrics_fold_absent(
                        prefix,
                        FlowDirection::ToClient,
                        f.backend_ip,
                        prevm,
                        event_ns,
                        now_ns,
                        orphan_ttl_ns,
                    );
                }
                buckets.push(
                    (
                        f.backend_ip,
                        AggregateFlowStats {
                            clients: Vec::new(),
                            to_server: Metrics::zero(),
                            to_client: Metrics::zero(),
                        },
                    ),
                );
                buckets.len() - 1
            },
        };
        let ghost bkey = buckets@[bi as int].0;
        proof {
            assert(bkey == f.backend_ip);
            lemma_metrics_fold_bounds(
                prefix,
                FlowDirection::ToServer,
                None,
                prevm,
                event_ns,
                now_ns,
                orphan_ttl_ns,
            );
            lemma_metrics_fold_bounds(
                prefix,
                FlowDirection::ToClient,
                None,
                prevm,
                event_ns,
                now_ns,
                orphan_ttl_ns,
            );
            lemma_metrics_fold_bounds(
                prefix,
                FlowDirection::ToServer,
                Some(bkey),
                prevm,
                event_ns,
                now_ns,
                orphan_ttl_ns,
            );
            lemma_metrics_fold_bounds(
                prefix,
                FlowDirection::ToClient,
                Some(bkey),
                prevm,
                event_ns,
                now_ns,
                orphan_ttl_ns,
            );
        }

        let ghost buckets_before = buckets@;
        let ghost totals_clients_before = totals_clients@;
        if matches!(f.direction, FlowDirection::ToClient) {
            totals_tc = metrics_apply(
                totals_tc,
                &f,
                true,
                false,
                delta_b,
                delta_p,
                is_new,
                fin_evt,
                rst_evt,
                orphan_evt,
                active,
                Ghost(
                    metrics_fold(
                        prefix,
                        FlowDirection::ToClient,
                        None,
                        prevm,
                        event_ns,
                        now_ns,
                        orphan_ttl_ns,
                    ),
                ),
                Ghost(k),
                Ghost(FlowDirection::ToClient),
                Ghost(None),
                Ghost(prevm),
                Ghost(event_ns),
                Ghost(now_ns),
                Ghost(orphan_ttl_ns),
            );
            let upd = metrics_apply(
                buckets[bi].1.to_client,
                &f,
                true,
                false,
                delta_b,
                delta_p,
                is_new,
                fin_evt,
                rst_evt,
                orphan_evt,
                active,
                Ghost(
                    metrics_fold(
                        prefix,
                        FlowDirection::ToClient,
                        Some(bkey),
                        prevm,
                        event_ns,
                        now_ns,
                        orphan_ttl_ns,
                    ),
                ),
                Ghost(k),
                Ghost(FlowDirection::ToClient),
                Ghost(Some(bkey)),
                Ghost(prevm),
                Ghost(event_ns),
                Ghost(now_ns),
                Ghost(orphan_ttl_ns),
            );
            buckets[bi].1.to_client = upd;
        } else {
            totals_ts = metrics_apply(
                totals_ts,
                &f,
                true,
                true,
                delta_b,
                delta_p,
                is_new,
                fin_evt,
                rst_evt,
                orphan_evt,
                active,
                Ghost(
                    metrics_fold(
                        prefix,
                        FlowDirection::ToServer,
                        None,
                        prevm,
                        event_ns,
                        now_ns,
                        orphan_ttl_ns,
                    ),
                ),
                Ghost(k),
                Ghost(FlowDirection::ToServer),
                Ghost(None),
                Ghost(prevm),
                Ghost(event_ns),
                Ghost(now_ns),
                Ghost(orphan_ttl_ns),
            );
            let upd = metrics_apply(
                buckets[bi].1.to_server,
                &f,
                true,
                true,
                delta_b,
                delta_p,
                is_new,
                fin_evt,
                rst_evt,
                orphan_evt,
                active,
                Ghost(
                    metrics_fold(
                        prefix,
                        FlowDirection::ToServer,
                        Some(bkey),
                        prevm,
                        event_ns,
                        now_ns,
                        orphan_ttl_ns,
                    ),
                ),
                Ghost(k),
                Ghost(FlowDirection::ToServer),
                Ghost(Some(bkey)),
                Ghost(prevm),
                Ghost(event_ns),
                Ghost(now_ns),
                Ghost(orphan_ttl_ns),
            );
            buckets[bi].1.to_server = upd;

            if active {
                if !vec_contains_u128(&totals_clients, f.client_ip) {
                    totals_clients.push(f.client_ip);
                }
                if !vec_contains_u128(&buckets[bi].1.clients, f.client_ip) {
                    buckets[bi].1.clients.push(f.client_ip);
                }
            }
        }
        proof {
            lemma_clients_ok_step(
                totals_clients_before,
                totals_clients@,
                prefix,
                (k, f),
                None,
                now_ns,
                orphan_ttl_ns,
            );
            lemma_metrics_fold_unfold(
                prefix2,
                FlowDirection::ToServer,
                None,
                prevm,
                event_ns,
                now_ns,
                orphan_ttl_ns,
            );
            lemma_metrics_fold_unfold(
                prefix2,
                FlowDirection::ToClient,
                None,
                prevm,
                event_ns,
                now_ns,
                orphan_ttl_ns,
            );
            assert(buckets@[bi as int].0 == f.backend_ip);
            assert(buckets_contain(buckets@, f.backend_ip));
            if f.direction is ToClient {
                lemma_metrics_step_skip(
                    metrics_fold(
                        prefix,
                        FlowDirection::ToServer,
                        None,
                        prevm,
                        event_ns,
                        now_ns,
                        orphan_ttl_ns,
                    ),
                    k,
                    f,
                    FlowDirection::ToServer,
                    None,
                    prevm,
                    event_ns,
                    now_ns,
                    orphan_ttl_ns,
                );
            } else {
                lemma_metrics_step_skip(
                    metrics_fold(
                        prefix,
                        FlowDirection::ToClient,
                        None,
                        prevm,
                        event_ns,
                        now_ns,
                        orphan_ttl_ns,
                    ),
                    k,
                    f,
                    FlowDirection::ToClient,
                    None,
                    prevm,
                    event_ns,
                    now_ns,
                    orphan_ttl_ns,
                );
            }
            assert forall|j: int| 0 <= j < i implies buckets_contain(
                buckets@,
                (#[trigger] s_all[j]).1.backend_ip,
            ) by {
                assert(buckets_contain(buckets0, s_all[j].1.backend_ip));
                let b = choose|b: int| 0 <= b < buckets0.len() && (#[trigger] buckets0[b]).0
                    == s_all[j].1.backend_ip;
                assert(buckets@[b].0 == buckets0[b].0);
            }
            assert forall|b: int| 0 <= b < buckets@.len() implies bucket_ok(
                (#[trigger] buckets@[b]).0,
                buckets@[b].1,
                prefix2,
                prevm,
                event_ns,
                now_ns,
                orphan_ttl_ns,
            ) by {
                lemma_metrics_fold_unfold(
                    prefix2,
                    FlowDirection::ToServer,
                    Some(buckets@[b].0),
                    prevm,
                    event_ns,
                    now_ns,
                    orphan_ttl_ns,
                );
                lemma_metrics_fold_unfold(
                    prefix2,
                    FlowDirection::ToClient,
                    Some(buckets@[b].0),
                    prevm,
                    event_ns,
                    now_ns,
                    orphan_ttl_ns,
                );
                if b != bi || f.direction is ToClient {
                    lemma_metrics_step_skip(
                        metrics_fold(
                            prefix,
                            FlowDirection::ToServer,
                            Some(buckets@[b].0),
                            prevm,
                            event_ns,
                            now_ns,
                            orphan_ttl_ns,
                        ),
                        k,
                        f,
                        FlowDirection::ToServer,
                        Some(buckets@[b].0),
                        prevm,
                        event_ns,
                        now_ns,
                        orphan_ttl_ns,
                    );
                }
                if b != bi || !(f.direction is ToClient) {
                    lemma_metrics_step_skip(
                        metrics_fold(
                            prefix,
                            FlowDirection::ToClient,
                            Some(buckets@[b].0),
                            prevm,
                            event_ns,
                            now_ns,
                            orphan_ttl_ns,
                        ),
                        k,
                        f,
                        FlowDirection::ToClient,
                        Some(buckets@[b].0),
                        prevm,
                        event_ns,
                        now_ns,
                        orphan_ttl_ns,
                    );
                }
                assert(metrics_matches(
                    buckets@[b].1.to_server,
                    metrics_fold(
                        prefix2,
                        FlowDirection::ToServer,
                        Some(buckets@[b].0),
                        prevm,
                        event_ns,
                        now_ns,
                        orphan_ttl_ns,
                    ),
                ));
                assert(metrics_matches(
                    buckets@[b].1.to_client,
                    metrics_fold(
                        prefix2,
                        FlowDirection::ToClient,
                        Some(buckets@[b].0),
                        prevm,
                        event_ns,
                        now_ns,
                        orphan_ttl_ns,
                    ),
                ));
            }
        }
        i = i + 1;
    }
    proof {
        assert(s_all.subrange(0, n as int) =~= s_all);
    }
    (totals_ts, totals_tc, totals_clients, buckets, snap)
}

/// Fill the active-client gauges of every bucket from its client
/// collection; nothing else moves.
fn fill_bucket_client_gauges(buckets: &mut Vec<(u128, AggregateFlowStats)>)
    ensures
        final(buckets)@.len() == old(buckets)@.len(),
        forall|b: int| 0 <= b < old(buckets)@.len() ==> {
            let o = old(buckets)@[b];
            let x = #[trigger] final(buckets)@[b];
            &&& x.0 == o.0
            &&& x.1.clients@ == o.1.clients@
            &&& x.1.to_server == (Metrics {
                active_clients: x.1.to_server.active_clients,
                ..o.1.to_server
            })
            &&& x.1.to_client == (Metrics {
                active_clients: x.1.to_client.active_clients,
                ..o.1.to_client
            })
            &&& x.1.to_server.active_clients == (if o.1.clients@.len() > 0xffff_ffff {
                0xffff_ffffint
            } else {
                o.1.clients@.len() as int
            })
            &&& x.1.to_client.active_clients == x.1.to_server.active_clients
        },
{
    let mut b: usize = 0;
    while b < buckets.len()
        invariant
            buckets@.len() == old(buckets)@.len(),
            b <= buckets@.len(),
            forall|x: int| b <= x < buckets@.len() ==> #[trigger] buckets@[x] == old(buckets)@[x],
            forall|x: int| 0 <= x < b ==> {
                let o = old(buckets)@[x];
                let c = #[trigger] buckets@[x];
                &&& c.0 == o.0
                &&& c.1.clients@ == o.1.clients@
                &&& c.1.to_server == (Metrics {
                    active_clients: c.1.to_server.active_clients,
                    ..o.1.to_server
                })
                &&& c.1.to_client == (Metrics {
                    active_clients: c.1.to_client.active_clients,
                    ..o.1.to_client
                })
                &&& c.1.to_server.active_clients == (if o.1.clients@.len() > 0xffff_ffff {
                    0xffff_ffffint
                } else {
                    o.1.clients@.len() as int
                })
                &&& c.1.to_client.active_clients == c.1.to_server.active_clients
            },
        decreases buckets@.len() - b,
    {
        let cn = buckets[b].1.clients.len();
        let cc: u32 = if cn > 0xffff_ffffusize {
            0xffff_ffffu32
        } else {
            cn as u32
        };
        buckets[b].1.to_server.active_clients = cc;
        buckets[b].1.to_client.active_clients = cc;
        b = b + 1;
    }
}

/// Aggregate one tick's view of the flow table: diff each flow's
/// transfer counters against the previous tick's snapshot, classify it
/// by the events of this tick, and accumulate totals, per-backend
/// buckets and distinct active clients. Returns the stats and the
/// snapshot for the next tick.
#[verifier::rlimit(100)]
#[verifier::spinoff_prover]
pub fn aggregate_flow_stats(
    event_ns: u64,
    flows: &FlowTable,
    prev_flow_stats: &SnapshotMap,
    orphan_ttl_ns: u64,
    now_ns: u64,
) -> (r: (LbFlowStats, SnapshotMap))
    requires
        flows.wf(),
        prev_flow_stats.wf(),
    ensures
        ({
            let s = flows.entries_seq();
            let prev = prev_flow_stats@;

            &&& metrics_matches(
                        r.0.totals.to_server,
                        metrics_fold(
                            s,
                            FlowDirection::ToServer,
                            None,
                            prev,
                            event_ns,
                            now_ns,
                            orphan_ttl_ns,
                        ),
                    )
                    &&& metrics_matches(
                        r.0.totals.to_client,
                        metrics_fold(
                            s,
                            FlowDirection::ToClient,
                            None,
                            prev,
                            event_ns,
                            now_ns,
                            orphan_ttl_ns,
                        ),
                    )
                    &&& clients_ok(r.0.totals.clients@, s, None, now_ns, orphan_ttl_ns)
                    &&& r.0.totals.to_server.active_clients == (if r.0.totals.clients@.len()
                        > 0xffff_ffff {
                        0xffff_ffffint
                    } else {
                        r.0.totals.clients@.len() as int
                    })
                    &&& r.0.totals.to_client.active_clients == r.0.totals.to_server.active_clients
                    &&& bucket_keys_unique(r.0.backends@)
                    &&& forall|b: int| 0 <= b < r.0.backends@.len() ==> bucket_ok(
                        (#[trigger] r.0.backends@[b]).0,
                        r.0.backends@[b].1,
                        s,
                        prev,
                        event_ns,
                        now_ns,
                        orphan_ttl_ns,
                    ) && r.0.backends@[b].1.to_server.active_clients == (if r.0.backends@[
                        b].1.clients@.len() > 0xffff_ffff {
                        0xffff_ffffint
                    } else {
                        r.0.backends@[b].1.clients@.len() as int
                    }) && r.0.backends@[b].1.to_client.active_clients == r.0.backends@[
                        b].1.to_server.active_clients
                    &&& forall|b: int| 0 <= b < r.0.backends@.len() ==> exists|j: int| 0 <= j < s.len()
                        && (#[trigger] s[j]).1.backend_ip == (#[trigger] r.0.backends@[b]).0
                    &&& forall|j: int| 0 <= j < s.len() ==> buckets_contain(
                        r.0.backends@,
                        (#[trigger] s[j]).1.backend_ip,
                    )
                    &&& r.0.available_backends == 0
        }),
        r.1.wf(),
        r.1@ =~= snapshot_of(flows.entries_seq()),
{
    let (mut totals_ts, mut totals_tc, totals_clients, mut buckets, snap) = aggregate_pass(
        event_ns,
        flows,
        prev_flow_stats,
        orphan_ttl_ns,
        now_ns,
    );
    let nclients = totals_clients.len();
    let ac: u32 = if nclients > 0xffff_ffffusize {
        0xffff_ffffu32
    } else {
        nclients as u32
    };
    totals_ts.active_clients = ac;
    totals_tc.active_clients = ac;

    let ghost buckets_mid = buckets@;
    fill_bucket_client_gauges(&mut buckets);
    proof {
        let s = flows.entries_seq();
        let prev = prev_flow_stats@;
        assert forall|b: int| 0 <= b < buckets@.len() implies bucket_ok(
            (#[trigger] buckets@[b]).0,
            buckets@[b].1,
            s,
            prev,
            event_ns,
            now_ns,
            orphan_ttl_ns,
        ) by {
            assert(bucket_ok(buckets_mid[b].0, buckets_mid[b].1, s, prev, event_ns, now_ns,
                orphan_ttl_ns));
        }
        assert forall|j: int| 0 <= j < flows.entries_seq().len() implies buckets_contain(
            buckets@,
            (#[trigger] flows.entries_seq()[j]).1.backend_ip,
        ) by {
            let x = choose|x: int| 0 <= x < buckets_mid.len() && (#[trigger] buckets_mid[x]).0
                == flows.entries_seq()[j].1.backend_ip;
            assert(buckets@[x].0 == buckets_mid[x].0);
        }
    }

    (
        LbFlowStats {
            totals: AggregateFlowStats {
                clients: totals_clients,
                to_server: totals_ts,
                to_client: totals_tc,
            },
            backends: buckets,
            available_backends: 0,
        },
        snap,
    )
}

/// A flow pair is due for reaping: both FINs older than the time-wait
/// window, a RST at least one tick old, or idleness past the orphan
/// time to live.
pub open spec fn reap_spec(
    f: Flow,
    now_ns: u64,
    last_run_ns: u64,
    time_wait_ttl_ns: u64,
    orphan_ttl_ns: u64,
) -> bool {
    ||| fin_ready_for_cleanup_spec(f.fin_both_ns, now_ns, time_wait_ttl_ns)
    ||| rst_ready_for_cleanup_spec(f.rst_ns, last_run_ns)
    ||| is_orphan_spec(f.last_seen_ns, now_ns, orphan_ttl_ns)
}

/// The set of keys a key list denotes.
pub open spec fn seq_key_set(keys: Seq<u64>) -> Set<u64> {
    Set::new(|x: u64| keys.contains(x))
}

/// The keys the sweep deletes, in table order: each reapable entry
/// contributes its own key and its stored counter-flow key.
pub open spec fn reap_keys_of(
    s: Seq<(u64, Flow)>,
    now_ns: u64,
    last_run_ns: u64,
    time_wait_ttl_ns: u64,
    orphan_ttl_ns: u64,
) -> Seq<u64>
    decreases s.len(),
{
    if s.len() == 0 {
        Seq::empty()
    } else {
        reap_keys_of(s.drop_last(), now_ns, last_run_ns, time_wait_ttl_ns, orphan_ttl_ns) + (
        if reap_spec(s.last().1, now_ns, last_run_ns, time_wait_ttl_ns, orphan_ttl_ns) {
            seq![s.last().0, s.last().1.counter_flow_key_hash]
        } else {
            Seq::empty()
        })
    }
}

/// Collect the keys of every reapable flow together with its stored
/// counter-flow key.
#[verifier::spinoff_prover]
fn collect_reap_keys(
    flows: &FlowTable,
    now_ns: u64,
    last_run_ns: u64,
    time_wait_ttl_ns: u64,
    orphan_ttl_ns: u64,
) -> (keys: Vec<u64>)
    requires
        flows.wf(),
    ensures
        keys@ == reap_keys_of(flows.entries_seq(), now_ns, last_run_ns, time_wait_ttl_ns,
        orphan_ttl_ns),
{
    let ghost s_all = flows.entries_seq();
    let mut keys_to_delete: Vec<u64> = Vec::new();
    let n = flows.len();
    let mut i: usize = 0;
    proof {
        assert(s_all.subrange(0, 0) =~= Seq::<(u64, Flow)>::empty());
    }
    while i < n
        invariant
            flows.wf(),
            s_all == flows.entries_seq(),
            n == s_all.len(),
            i <= n,
            keys_to_delete@ == reap_keys_of(s_all.subrange(0, i as int), now_ns, last_run_ns,
            time_wait_ttl_ns, orphan_ttl_ns),
        decreases n - i,
    {
        let ghost prefix = s_all.subrange(0, i as int);
        let ghost prefix2 = s_all.subrange(0, i + 1);
        proof {
            assert(prefix2.drop_last() =~= prefix);
            assert(prefix2.last() == s_all[i as int]);
        }
        let (k, f) = flows.entry_at(i);
        if fin_ready_for_cleanup(f.fin_both_ns, now_ns, time_wait_ttl_ns)
            || rst_ready_for_cleanup(f.rst_ns, last_run_ns) || is_orphan(
            f.last_seen_ns,
            now_ns,
            orphan_ttl_ns,
        ) {
            keys_to_delete.push(k);
            keys_to_delete.push(f.counter_flow_key_hash);
            proof {
                assert(keys_to_delete@ =~= reap_keys_of(prefix2, now_ns, last_run_ns,
                    time_wait_ttl_ns, orphan_ttl_ns));
            }
        } else {
            proof {
                assert(keys_to_delete@ =~= reap_keys_of(prefix2, now_ns, last_run_ns,
                    time_wait_ttl_ns, orphan_ttl_ns));
            }
        }
        i = i + 1;
    }
    proof {
        assert(s_all.subrange(0, n as int) =~= s_all);
    }
    keys_to_delete
}

/// Remove every key of a list from the table.
#[verifier::spinoff_prover]
fn remove_key_list(flows: &mut FlowTable, keys: &Vec<u64>)
    requires
        old(flows).wf(),
    ensures
        final(flows).wf(),
        final(flows)@ =~= old(flows)@.remove_keys(seq_key_set(keys@)),
{
    let ghost t0 = flows@;
    let m = keys.len();
    let mut j: usize = 0;
    proof {
        assert(seq_key_set(keys@.subrange(0, 0)) =~= Set::<u64>::empty());
        assert(flows@ =~= t0.remove_keys(seq_key_set(keys@.subrange(0, 0))));
    }
    while j < m
        invariant
            flows.wf(),
            m == keys@.len(),
            j <= m,
            flows@ =~= t0.remove_keys(seq_key_set(keys@.subrange(0, j as int))),
        decreases m - j,
    {
        let k = keys[j];
        flows.remove(k);
        proof {
            assert(keys@.subrange(0, j + 1) =~= keys@.subrange(0, j as int).push(k));
            lemma_push_contains(keys@.subrange(0, j as int), k);
            assert(flows@ =~= t0.remove_keys(seq_key_set(keys@.subrange(0, j + 1))));
        }
        j = j + 1;
    }
    proof {
        assert(keys@.subrange(0, m as int) =~= keys@);
    }
}

/// Delete flow pairs that have closed or gone idle: both sides of a
/// pair go, through the stored counter-flow key. Deletion stays
/// outside the fast path to avoid racing with in-flight writes.
/// Returns the keys deleted: exactly the keys and stored counter keys
/// of the reapable entries.
#[verifier::spinoff_prover]
pub fn prune_orphaned_or_closed(
    flows: &mut FlowTable,
    now_ns: u64,
    last_run_ns: u64,
    time_wait_ttl_ns: u64,
    orphan_ttl_ns: u64,
) -> (removed: Vec<u64>)
    requires
        old(flows).wf(),
    ensures
        final(flows).wf(),
        final(flows)@ =~= old(flows)@.remove_keys(seq_key_set(removed@)),
        removed@ == reap_keys_of(old(flows).entries_seq(), now_ns, last_run_ns,
        time_wait_ttl_ns, orphan_ttl_ns),
{
    let keys_to_delete = collect_reap_keys(
        flows,
        now_ns,
        last_run_ns,
        time_wait_ttl_ns,
        orphan_ttl_ns,
    );
    remove_key_list(flows, &keys_to_delete);
    keys_to_delete
}

/// Publish a fresh backend list into the slot table: the new entries
/// fill the first slots in order and every remaining slot is zeroed,
/// keeping the dense-prefix invariant.
pub fn publish_backends(table: &mut BackendTable, new_backends: &Vec<Backend>)
    requires
        old(table).wf(),
        new_backends@.len() <= MAX_BACKENDS,
        forall|i: int| 0 <= i < new_backends@.len() ==> (#[trigger] new_backends@[i]).ip != 0,
    ensures
        final(table).wf(),
        forall|i: int| 0 <= i < new_backends@.len() ==> final(table)@[i] == new_backends@[i],
        forall|i: int| new_backends@.len() <= i < MAX_BACKENDS ==> (#[trigger] final(table)@[
            i]).ip == 0,
{
    let n = new_backends.len();
    let mut i: usize = 0;
    while i < n
        invariant
            table.wf(),
            n == new_backends@.len(),
            n <= MAX_BACKENDS,
            i <= n,
            forall|x: int| 0 <= x < i ==> table@[x] == new_backends@[x],
        decreases n - i,
    {
        table.set(i as u32, new_backends[i]);
        i = i + 1;
    }
    let empty = Backend::empty_slot();
    let mut j: u32 = n as u32;
    while j < MAX_BACKENDS
        invariant
            table.wf(),
            n == new_backends@.len(),
            n <= j <= MAX_BACKENDS,
            empty.ip == 0,
            forall|x: int| 0 <= x < n ==> table@[x] == new_backends@[x],
            forall|x: int| n <= x < j ==> (#[trigger] table@[x]).ip == 0,
        decreases MAX_BACKENDS - j,
    {
        table.set(j, empty);
        j = j + 1;
    }
}

/// Handle the balancer hands the shutdown path to stop the maintenance
/// loop between ticks.
#[derive(Debug, Clone, Copy, PartialEq, Eq, Structural)]
pub struct MaintenanceLoopHandle {
    pub shutdown: bool,
}

impl MaintenanceLoopHandle {
    pub fn new() -> (r: Self)
        ensures
            !r.shutdown,
    {
        MaintenanceLoopHandle { shutdown: false }
    }

    pub fn stop(&mut self)
        ensures
            final(self).shutdown,
    {
        self.shutdown = true;
    }
}

/// The per-tick maintenance state: the previous tick's transfer
/// snapshot and timestamps, plus the reaping windows.
#[derive(Debug)]
pub struct MaintenanceLoop {
    pub prev_stats: SnapshotMap,
    pub last_run_ns: u64,
    pub orphan_ttl_ns: u64,
    pub time_wait_ttl_ns: u64,
}

impl MaintenanceLoop {
    pub open spec fn wf(&self) -> bool {
        self.prev_stats.wf()
    }

    pub fn new(orphan_ttl_ns: u64, time_wait_ttl_ns: u64) -> (r: Self)
        ensures
            r.wf(),
            r.prev_stats@ =~= Map::<u64, (u64, u64)>::empty(),
            r.last_run_ns == 0,
            r.orphan_ttl_ns == orphan_ttl_ns,
            r.time_wait_ttl_ns == time_wait_ttl_ns,
    {
        MaintenanceLoop {
            prev_stats: SnapshotMap::new(),
            last_run_ns: 0,
            orphan_ttl_ns,
            time_wait_ttl_ns,
        }
    }

    /// One maintenance tick, in order: aggregate flow stats against
    /// the previous snapshot, publish the freshly resolved backends
    /// over the dense prefix, reap closed and orphaned flow pairs, and
    /// remember this tick's snapshot and timestamp.
    #[verifier::spinoff_prover]
    pub fn run(
        &mut self,
        flows: &mut FlowTable,
        backends: &mut BackendTable,
        new_backends: &Vec<Backend>,
        now_ns: u64,
    ) -> (r: LbFlowStats)
        requires
            old(self).wf(),
            old(flows).wf(),
            old(backends).wf(),
            new_backends@.len() <= MAX_BACKENDS,
            forall|i: int| 0 <= i < new_backends@.len() ==> (#[trigger] new_backends@[i]).ip != 0,
        ensures
            final(self).wf(),
            final(flows).wf(),
            final(backends).wf(),

            forall|i: int| 0 <= i < new_backends@.len() ==> final(backends)@[i]
                == new_backends@[i],
            forall|i: int| new_backends@.len() <= i < MAX_BACKENDS
                ==> (#[trigger] final(backends)@[i]).ip == 0,
            final(flows)@ =~= old(flows)@.remove_keys(
                seq_key_set(
                    reap_keys_of(
                        old(flows).entries_seq(),
                        now_ns,
                        old(self).last_run_ns,
                        old(self).time_wait_ttl_ns,
                        old(self).orphan_ttl_ns,
                    ),
                ),
            ),
            final(self).prev_stats@ =~= snapshot_of(old(flows).entries_seq()),
            final(self).last_run_ns == now_ns,
            final(self).orphan_ttl_ns == old(self).orphan_ttl_ns,
            final(self).time_wait_ttl_ns == old(self).time_wait_ttl_ns,
    {
        let (stats, snap) = aggregate_flow_stats(
            self.last_run_ns,
            flows,
            &self.prev_stats,
            self.orphan_ttl_ns,
            now_ns,
        );
        self.prev_stats = snap;

        publish_backends(backends, new_backends);

        let _removed = prune_orphaned_or_closed(
            flows,
            now_ns,
            self.last_run_ns,
            self.time_wait_ttl_ns,
            self.orphan_ttl_ns,
        );

        self.last_run_ns = now_ns;
        stats
    }
}

} // verus!
