//! Backend selection: round-robin over the dense prefix of the backend
//! table, with the bounded two-pass scan the fast path uses.

use crate::config::Strategy;
use crate::consts::MAX_BACKENDS;
use crate::flow_table::BackendTable;
use crate::types::Backend;
use vstd::prelude::*;

verus! {

/// The slot the scan probes at offset `o` from a cursor.
pub open spec fn rr_slot(start: u32, o: int) -> int {
    (start + o) % (MAX_BACKENDS as int)
}

/// The least offset in `[o, 64)` from `start` whose slot is
/// selectable, if any.
pub open spec fn rr_scan_at(t: Seq<Backend>, start: u32, o: int) -> Option<int>
    decreases 64 - o,
{
    if o < 0 || o >= 64 {
        None
    } else if t[rr_slot(start, o)].ip != 0 {
        Some(o)
    } else {
        rr_scan_at(t, start, o + 1)
    }
}

/// The slot round-robin selection picks for a cursor: the first
/// selectable slot in the 64-wide window at the cursor, else — when
/// the cursor is away from the start — the first in the window at
/// zero, else none.
pub open spec fn rr_choice(t: Seq<Backend>, start: u32) -> Option<int> {
    match rr_scan_at(t, start, 0) {
        Some(o) => Some(rr_slot(start, o)),
        None => {
            if start != 0 {
                match rr_scan_at(t, 0, 0) {
                    Some(o) => Some(rr_slot(0, o)),
                    None => None,
                }
            } else {
                None
            }
        },
    }
}

/// Round-robin selection: scan up to 64 slots from the cursor, then —
/// if the cursor had left the origin — up to 64 slots from the start,
/// advancing the cursor past the chosen slot.
pub fn select_backend_round_robin(backends: &BackendTable, cursor: &mut u32) -> (r: Option<
    Backend,
>)
    requires
        backends.wf(),
    ensures
        match rr_choice(backends@, *old(cursor)) {
            Some(idx) => r == Some(backends@[idx]) && backends@[idx].ip != 0 && *final(cursor)
                == (idx + 1) % (MAX_BACKENDS as int),
            None => r == None::<Backend> && *final(cursor) == *old(cursor),
        },
{
    let start_idx: u32 = *cursor;
    let mut o: u32 = 0;
    while o < 64
        invariant
            backends.wf(),
            *cursor == start_idx,
            start_idx == *old(cursor),
            o <= 64,
            rr_scan_at(backends@, start_idx, o as int) == rr_scan_at(backends@, start_idx, 0),
        decreases 64 - o,
    {
        let idx: u32 = (((start_idx as u64) + (o as u64)) % (MAX_BACKENDS as u64)) as u32;
        let entry = backends.get(idx);
        if entry.ip != 0 {
            proof {
                assert(idx as int == rr_slot(start_idx, o as int));
                assert(rr_scan_at(backends@, start_idx, o as int) == Some(o as int));
            }
            *cursor = (idx + 1) % MAX_BACKENDS;
            return Some(entry);
        }
        o = o + 1;
    }
    if start_idx != 0 {
        let mut o2: u32 = 0;
        while o2 < 64
            invariant
                backends.wf(),
                *cursor == start_idx,
                start_idx == *old(cursor),
                start_idx != 0,
                o2 <= 64,
                rr_scan_at(backends@, start_idx, 0) is None,
                rr_scan_at(backends@, 0, o2 as int) == rr_scan_at(backends@, 0, 0),
            decreases 64 - o2,
        {
            let entry = backends.get(o2);
            if entry.ip != 0 {
                proof {
                    assert(rr_slot(0, o2 as int) == o2 as int);
                    assert(rr_scan_at(backends@, 0, o2 as int) == Some(o2 as int));
                }
                *cursor = (o2 + 1) % MAX_BACKENDS;
                return Some(entry);
            }
            o2 = o2 + 1;
        }
    }
    None
}

/// Dispatch on the configured strategy; round-robin is the only one
/// implemented.
pub fn select_backend(strategy: &Strategy, backends: &BackendTable, cursor: &mut u32) -> (r:
    Option<Backend>)
    requires
        backends.wf(),
    ensures
        match rr_choice(backends@, *old(cursor)) {
            Some(idx) => r == Some(backends@[idx]) && backends@[idx].ip != 0 && *final(cursor)
                == (idx + 1) % (MAX_BACKENDS as int),
            None => r == None::<Backend> && *final(cursor) == *old(cursor),
        },
{
    match strategy {
        Strategy::RoundRobin => select_backend_round_robin(backends, cursor),
    }
}

} // verus!
