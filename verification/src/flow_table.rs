//! The connection-tracking flow table and the backend slot table, with
//! mathematical map and sequence views. The flow table is an
//! association list keyed by 64-bit flow-key hashes; per-entry
//! operations mirror what the kernel map offers the fast path (lookup,
//! insert, delete, iterate).

use crate::consts::MAX_ACTIVE_FLOWS;
use crate::consts::MAX_BACKENDS;
use crate::errors::XlbErr;
use crate::types::{Backend, Flow};
use vstd::prelude::*;

verus! {

/// The map a key-value sequence denotes; later entries win, though the
/// table keeps its keys unique.
pub open spec fn map_of<V>(s: Seq<(u64, V)>) -> Map<u64, V>
    decreases s.len(),
{
    if s.len() == 0 {
        Map::empty()
    } else {
        map_of(s.drop_last()).insert(s.last().0, s.last().1)
    }
}

/// No key occurs twice.
pub open spec fn keys_unique<V>(s: Seq<(u64, V)>) -> bool {
    forall|i: int, j: int| 0 <= i < j < s.len() ==> (#[trigger] s[i]).0 != (#[trigger] s[j]).0
}

pub proof fn lemma_map_of_contains<V>(s: Seq<(u64, V)>, k: u64)
    ensures
        map_of(s).contains_key(k) <==> exists|i: int| 0 <= i < s.len() && (#[trigger] s[i]).0
            == k,
    decreases s.len(),
{
    if s.len() > 0 {
        lemma_map_of_contains(s.drop_last(), k);
        if s.last().0 == k {
            assert(s[s.len() - 1].0 == k);
        } else {
            if map_of(s).contains_key(k) {
                let i = choose|i: int| 0 <= i < s.drop_last().len() && (#[trigger] s.drop_last()[
                    i]).0 == k;
                assert(s[i].0 == k);
            }
            if exists|i: int| 0 <= i < s.len() && (#[trigger] s[i]).0 == k {
                let i = choose|i: int| 0 <= i < s.len() && (#[trigger] s[i]).0 == k;
                assert(s.drop_last()[i].0 == k);
            }
        }
    }
}

pub proof fn lemma_map_of_get<V>(s: Seq<(u64, V)>, i: int)
    requires
        keys_unique(s),
        0 <= i < s.len(),
    ensures
        map_of(s).contains_key(s[i].0),
        map_of(s)[s[i].0] == s[i].1,
    decreases s.len(),
{
    if i == s.len() - 1 {
    } else {
        assert(keys_unique(s.drop_last()));
        assert(s.drop_last()[i] == s[i]);
        lemma_map_of_get(s.drop_last(), i);
        assert(s[i].0 != s.last().0);
    }
}

pub proof fn lemma_map_of_update<V>(s: Seq<(u64, V)>, i: int, v: V)
    requires
        keys_unique(s),
        0 <= i < s.len(),
    ensures
        map_of(s.update(i, (s[i].0, v))) =~= map_of(s).insert(s[i].0, v),
        keys_unique(s.update(i, (s[i].0, v))),
    decreases s.len(),
{
    let k = s[i].0;
    let s2 = s.update(i, (k, v));
    assert(keys_unique(s2));
    if i == s.len() - 1 {
        assert(s2.drop_last() =~= s.drop_last());
        assert(s2.last() == (k, v));
        assert(map_of(s2) =~= map_of(s.drop_last()).insert(k, v));
        assert(map_of(s).insert(k, v) =~= map_of(s.drop_last()).insert(s.last().0, s.last(
        ).1).insert(k, v));
    } else {
        assert(keys_unique(s.drop_last()));
        assert(s.drop_last()[i] == s[i]);
        lemma_map_of_update(s.drop_last(), i, v);
        assert(s2.drop_last() =~= s.drop_last().update(i, (k, v)));
        assert(s2.last() == s.last());
        assert(k != s.last().0);
        assert(map_of(s2) =~= map_of(s.drop_last().update(i, (k, v))).insert(s.last().0, s.last(
        ).1));
        assert(map_of(s2) =~= map_of(s).insert(k, v));
    }
}

pub proof fn lemma_map_of_remove<V>(s: Seq<(u64, V)>, i: int)
    requires
        keys_unique(s),
        0 <= i < s.len(),
    ensures
        map_of(s.remove(i)) =~= map_of(s).remove(s[i].0),
        keys_unique(s.remove(i)),
    decreases s.len(),
{
    let k = s[i].0;
    let s2 = s.remove(i);
    assert forall|a: int, b: int| 0 <= a < b < s2.len() implies (#[trigger] s2[a]).0
        != (#[trigger] s2[b]).0 by {
        let a0 = if a < i {
            a
        } else {
            a + 1
        };
        let b0 = if b < i {
            b
        } else {
            b + 1
        };
        assert(s2[a] == s[a0] && s2[b] == s[b0]);
    }
    if i == s.len() - 1 {
        assert(s2 =~= s.drop_last());
        lemma_map_of_contains(s.drop_last(), k);
        assert(!map_of(s.drop_last()).contains_key(k));
        assert(map_of(s).remove(k) =~= map_of(s.drop_last()).insert(k, s.last().1).remove(k));
        assert(map_of(s.drop_last()).insert(k, s.last().1).remove(k) =~= map_of(
            s.drop_last(),
        ).remove(k));
        assert(map_of(s.drop_last()).remove(k) =~= map_of(s.drop_last()));
    } else {
        assert(keys_unique(s.drop_last()));
        assert(s.drop_last()[i] == s[i]);
        lemma_map_of_remove(s.drop_last(), i);
        assert(s2.drop_last() =~= s.drop_last().remove(i));
        assert(s2.last() == s.last());
        assert(k != s.last().0);
        assert(map_of(s2) =~= map_of(s.drop_last().remove(i)).insert(s.last().0, s.last().1));
        assert(map_of(s2) =~= map_of(s).remove(k));
    }
}

pub proof fn lemma_map_of_push<V>(s: Seq<(u64, V)>, k: u64, v: V)
    requires
        keys_unique(s),
        forall|i: int| 0 <= i < s.len() ==> (#[trigger] s[i]).0 != k,
    ensures
        map_of(s.push((k, v))) =~= map_of(s).insert(k, v),
        keys_unique(s.push((k, v))),
{
    assert(s.push((k, v)).drop_last() =~= s);
    assert(s.push((k, v)).last() == (k, v));
}

/// The connection-tracking table: bidirectional flow recipes keyed by
/// the 64-bit hash of their flow key, capped at `MAX_ACTIVE_FLOWS`.
#[derive(Debug)]
pub struct FlowTable {
    entries: Vec<(u64, Flow)>,
}

impl FlowTable {
    /// The entry sequence, in insertion order, for iteration.
    pub closed spec fn entries_seq(&self) -> Seq<(u64, Flow)> {
        self.entries@
    }

    /// The map this table denotes.
    pub open spec fn view(&self) -> Map<u64, Flow> {
        map_of(self.entries_seq())
    }

    pub open spec fn wf(&self) -> bool {
        &&& keys_unique(self.entries_seq())
        &&& self.entries_seq().len() <= MAX_ACTIVE_FLOWS
    }

    pub fn new() -> (r: Self)
        ensures
            r.wf(),
            r@ =~= Map::<u64, Flow>::empty(),
            r.entries_seq().len() == 0,
    {
        FlowTable { entries: Vec::new() }
    }

    pub fn len(&self) -> (r: usize)
        ensures
            r == self.entries_seq().len(),
    {
        self.entries.len()
    }

    /// The entry at a position, for the maintenance loop's iteration.
    pub fn entry_at(&self, i: usize) -> (r: (u64, Flow))
        requires
            i < self.entries_seq().len(),
        ensures
            r == self.entries_seq()[i as int],
    {
        self.entries[i]
    }

    /// Every entry of the sequence is in the map.
    pub proof fn lemma_entry_in_view(&self, i: int)
        requires
            self.wf(),
            0 <= i < self.entries_seq().len(),
        ensures
            self@.contains_key(self.entries_seq()[i].0),
            self@[self.entries_seq()[i].0] == self.entries_seq()[i].1,
    {
        lemma_map_of_get(self.entries_seq(), i);
    }

    /// Every key of the map stands somewhere in the sequence.
    pub proof fn lemma_view_in_entries(&self, k: u64)
        requires
            self@.contains_key(k),
        ensures
            exists|i: int| 0 <= i < self.entries_seq().len() && (#[trigger] self.entries_seq()[
                i]).0 == k,
    {
        lemma_map_of_contains(self.entries_seq(), k);
    }

    /// Look a flow up by its key hash.
    pub fn lookup(&self, key_hash: u64) -> (r: Option<Flow>)
        requires
            self.wf(),
        ensures
            match r {
                Some(f) => self@.contains_key(key_hash) && self@[key_hash] == f,
                None => !self@.contains_key(key_hash),
            },
    {
        let n = self.entries.len();
        let mut i: usize = 0;
        while i < n
            invariant
                self.wf(),
                n == self.entries_seq().len(),
                i <= n,
                forall|j: int| 0 <= j < i ==> (#[trigger] self.entries_seq()[j]).0 != key_hash,
            decreases n - i,
        {
            if self.entries[i].0 == key_hash {
                proof {
                    lemma_map_of_get(self.entries_seq(), i as int);
                }
                return Some(self.entries[i].1);
            }
            i = i + 1;
        }
        proof {
            lemma_map_of_contains(self.entries_seq(), key_hash);
        }
        None
    }

    /// Insert or overwrite the flow stored under a key hash; a brand
    /// new entry fails when the table is at capacity.
    pub fn insert(&mut self, key_hash: u64, flow: Flow) -> (r: Result<(), XlbErr>)
        requires
            old(self).wf(),
        ensures
            final(self).wf(),
            match r {
                Ok(()) => final(self)@ =~= old(self)@.insert(key_hash, flow),
                Err(e) => e == XlbErr::ErrMapInsertFailed && !old(self)@.contains_key(key_hash)
                    && old(self).entries_seq().len() == MAX_ACTIVE_FLOWS && *final(self) == *old(
                    self,
                ),
            },
            r is Err <==> !old(self)@.contains_key(key_hash) && old(self).entries_seq().len()
                == MAX_ACTIVE_FLOWS,
            r is Ok ==> final(self).entries_seq().len() == old(self).entries_seq().len() + (
            if old(self)@.contains_key(key_hash) {
                0int
            } else {
                1int
            }),
    {
        let n = self.entries.len();
        let mut i: usize = 0;
        while i < n
            invariant
                *self == *old(self),
                self.wf(),
                n == self.entries_seq().len(),
                i <= n,
                forall|j: int| 0 <= j < i ==> (#[trigger] self.entries_seq()[j]).0 != key_hash,
            decreases n - i,
        {
            if self.entries[i].0 == key_hash {
                proof {
                    lemma_map_of_update(self.entries_seq(), i as int, flow);
                    lemma_map_of_get(self.entries_seq(), i as int);
                }
                self.entries[i] = (key_hash, flow);
                return Ok(());
            }
            i = i + 1;
        }
        proof {
            lemma_map_of_contains(self.entries_seq(), key_hash);
        }
        if self.entries.len() >= MAX_ACTIVE_FLOWS as usize {
            return Err(XlbErr::ErrMapInsertFailed);
        }
        proof {
            lemma_map_of_push(self.entries_seq(), key_hash, flow);
        }
        self.entries.push((key_hash, flow));
        Ok(())
    }

    /// Delete the entry under a key hash, if any; only the userspace
    /// sweeper calls this.
    pub fn remove(&mut self, key_hash: u64)
        requires
            old(self).wf(),
        ensures
            final(self).wf(),
            final(self)@ =~= old(self)@.remove(key_hash),
            final(self).entries_seq().len() <= old(self).entries_seq().len(),
    {
        let n = self.entries.len();
        let mut i: usize = 0;
        while i < n
            invariant
                *self == *old(self),
                self.wf(),
                n == self.entries_seq().len(),
                i <= n,
                forall|j: int| 0 <= j < i ==> (#[trigger] self.entries_seq()[j]).0 != key_hash,
            decreases n - i,
        {
            if self.entries[i].0 == key_hash {
                proof {
                    lemma_map_of_remove(self.entries_seq(), i as int);
                    lemma_map_of_get(self.entries_seq(), i as int);
                }
                self.entries.remove(i);
                return ;
            }
            i = i + 1;
        }
        proof {
            lemma_map_of_contains(self.entries_seq(), key_hash);
            assert(self@.remove(key_hash) =~= self@);
        }
    }
}

/// The backend slot table: a fixed array of `MAX_BACKENDS` slots whose
/// dense prefix the maintenance loop maintains. `ip == 0` marks an
/// empty slot.
#[derive(Debug)]
pub struct BackendTable {
    slots: Vec<Backend>,
}

impl BackendTable {
    pub closed spec fn slots_seq(&self) -> Seq<Backend> {
        self.slots@
    }

    pub open spec fn view(&self) -> Seq<Backend> {
        self.slots_seq()
    }

    pub open spec fn wf(&self) -> bool {
        self.slots_seq().len() == MAX_BACKENDS
    }

    /// A table of nothing but empty slots.
    pub fn new() -> (r: Self)
        ensures
            r.wf(),
            forall|i: int| 0 <= i < MAX_BACKENDS ==> (#[trigger] r@[i]).ip == 0,
    {
        let mut slots: Vec<Backend> = Vec::new();
        let mut i: usize = 0;
        while i < MAX_BACKENDS as usize
            invariant
                i == slots@.len(),
                i <= MAX_BACKENDS,
                forall|j: int| 0 <= j < i ==> (#[trigger] slots@[j]).ip == 0,
            decreases MAX_BACKENDS - i,
        {
            slots.push(Backend::empty_slot());
            i = i + 1;
        }
        BackendTable { slots }
    }

    pub fn get(&self, i: u32) -> (r: Backend)
        requires
            self.wf(),
            i < MAX_BACKENDS,
        ensures
            r == self@[i as int],
    {
        self.slots[i as usize]
    }

    pub fn set(&mut self, i: u32, b: Backend)
        requires
            old(self).wf(),
            i < MAX_BACKENDS,
        ensures
            final(self).wf(),
            final(self)@ =~= old(self)@.update(i as int, b),
    {
        self.slots[i as usize] = b;
    }
}

} // verus!
