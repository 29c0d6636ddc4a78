//! The chain state that the peers of one zone last reported, and the choice of
//! peers to sync from.
use vstd::prelude::*;
use crate::peer::{ConnectionHandle, CoreSyncData, InternalPeerID};
use crate::pruning::PruningSeed;

verus! {

/// The last chain summary a peer reported, with its connection.
#[derive(Debug, Clone, Copy, PartialEq, Eq, Structural)]
pub struct SyncRecord {
    pub peer_id: InternalPeerID,
    pub handle: ConnectionHandle,
    pub data: CoreSyncData,
}

/// Whether a peer's reported data says it keeps the block at `height`: its
/// seed reads under the peer-to-peer rules and covers the height.
pub open spec fn data_covers(data: CoreSyncData, height: u64) -> bool {
    PruningSeed::decompress_p2p_spec(data.pruning_seed) matches Ok(s) && s.covers_spec(height as int)
}

/// Whether a record makes its peer a sync candidate: its cumulative difficulty
/// is strictly above ours and, where a block is needed, its seed covers it.
pub open spec fn is_candidate(rec: SyncRecord, current_cumulative_difficulty: u128, block_needed: Option<u64>) -> bool {
    &&& rec.data.cumulative_difficulty_spec() > current_cumulative_difficulty
    &&& match block_needed {
        None => true,
        Some(h) => data_covers(rec.data, h),
    }
}

/// The peers of the candidate records of `s`, in order.
pub open spec fn candidates(s: Seq<SyncRecord>, current_cumulative_difficulty: u128, block_needed: Option<u64>) -> Seq<InternalPeerID>
    decreases s.len(),
{
    if s.len() == 0 {
        Seq::empty()
    } else {
        let rest = candidates(s.drop_last(), current_cumulative_difficulty, block_needed);
        if is_candidate(s.last(), current_cumulative_difficulty, block_needed) {
            rest.push(s.last().peer_id)
        } else {
            rest
        }
    }
}

/// No two records are of the same peer.
pub open spec fn unique_peers(s: Seq<SyncRecord>) -> bool {
    forall|i: int, j: int| 0 <= i < s.len() && 0 <= j < s.len() && i != j
        ==> (#[trigger] s[i]).peer_id != (#[trigger] s[j]).peer_id
}

/// Whether `s` holds a record of `peer_id`.
pub open spec fn has_peer(s: Seq<SyncRecord>, peer_id: InternalPeerID) -> bool {
    exists|i: int| 0 <= i < s.len() && (#[trigger] s[i]).peer_id == peer_id
}

/// Every peer in the candidates of `s` has a record in `s` that makes it one.
pub proof fn lemma_candidates_qualify(s: Seq<SyncRecord>, current_cumulative_difficulty: u128, block_needed: Option<u64>)
    ensures
        forall|k: int| #![trigger candidates(s, current_cumulative_difficulty, block_needed)[k]]
            0 <= k < candidates(s, current_cumulative_difficulty, block_needed).len()
            ==> exists|i: int| 0 <= i < s.len()
                && (#[trigger] s[i]).peer_id == candidates(s, current_cumulative_difficulty, block_needed)[k]
                && is_candidate(s[i], current_cumulative_difficulty, block_needed),
    decreases s.len(),
{
    if s.len() > 0 {
        let p = s.drop_last();
        lemma_candidates_qualify(p, current_cumulative_difficulty, block_needed);
        let c = candidates(s, current_cumulative_difficulty, block_needed);
        let cp = candidates(p, current_cumulative_difficulty, block_needed);
        assert forall|k: int| #![trigger c[k]] 0 <= k < c.len() implies exists|i: int| 0 <= i < s.len()
            && (#[trigger] s[i]).peer_id == c[k] && is_candidate(s[i], current_cumulative_difficulty, block_needed) by {
            if k < cp.len() {
                assert(c[k] == cp[k]);
                let i = choose|i: int| 0 <= i < p.len() && (#[trigger] p[i]).peer_id == cp[k]
                    && is_candidate(p[i], current_cumulative_difficulty, block_needed);
                assert(s[i] == p[i]);
            } else {
                assert(c[k] == s[s.len() - 1].peer_id);
            }
        }
    }
}

/// The sync state of one zone: one record per peer that reported.
pub struct PeerSyncSvc {
    records: Vec<SyncRecord>,
}

impl PeerSyncSvc {
    pub closed spec fn records(&self) -> Seq<SyncRecord> {
        self.records@
    }

    pub open spec fn wf(&self) -> bool {
        unique_peers(self.records())
    }

    /// A store with no records.
    pub fn new() -> (r: PeerSyncSvc)
        ensures
            r.wf(),
            r.records().len() == 0,
    {
        PeerSyncSvc { records: Vec::new() }
    }

    /// The index of the record of `peer_id`, if any.
    fn find_peer(&self, peer_id: &InternalPeerID) -> (r: Option<usize>)
        ensures
            r matches Some(i) ==> i < self.records@.len() && self.records@[i as int].peer_id == *peer_id,
            r is None ==> !has_peer(self.records@, *peer_id),
    {
        let mut i: usize = 0;
        while i < self.records.len()
            invariant
                i <= self.records.len(),
                forall|j: int| 0 <= j < i ==> (#[trigger] self.records@[j]).peer_id != *peer_id,
            decreases self.records.len() - i,
        {
            if self.records[i].peer_id == *peer_id {
                return Some(i);
            }
            i = i + 1;
        }
        None
    }

    /// Stores what a peer reported, replacing its earlier record.
    pub fn incoming_core_sync_data(&mut self, peer_id: InternalPeerID, handle: ConnectionHandle, data: CoreSyncData)
        requires
            old(self).wf(),
        ensures
            final(self).wf(),
            final(self).records().contains(SyncRecord { peer_id, handle, data }),
            forall|rec: SyncRecord| #[trigger] final(self).records().contains(rec) && rec.peer_id != peer_id
                ==> old(self).records().contains(rec),
            forall|rec: SyncRecord| #[trigger] old(self).records().contains(rec) && rec.peer_id != peer_id
                ==> final(self).records().contains(rec),
    {
        let rec = SyncRecord { peer_id, handle, data };
        let ghost old_records = self.records@;
        match self.find_peer(&peer_id) {
            Some(i) => {
                self.records.set(i, rec);
                proof {
                    assert(self.records@[i as int] == rec);
                    assert forall|x: SyncRecord| #[trigger] self.records@.contains(x) && x.peer_id != peer_id implies old_records.contains(x) by {
                        let k = choose|k: int| 0 <= k < self.records@.len() && self.records@[k] == x;
                        assert(old_records[k] == x);
                    }
                    assert forall|x: SyncRecord| #[trigger] old_records.contains(x) && x.peer_id != peer_id implies self.records@.contains(x) by {
                        let k = choose|k: int| 0 <= k < old_records.len() && old_records[k] == x;
                        assert(self.records@[k] == x);
                    }
                    assert forall|x: int, y: int| 0 <= x < self.records@.len() && 0 <= y < self.records@.len() && x != y
                        implies (#[trigger] self.records@[x]).peer_id != (#[trigger] self.records@[y]).peer_id by {
                        if x != i { assert(self.records@[x] == old_records[x]); }
                        if y != i { assert(self.records@[y] == old_records[y]); }
                    }
                }
            },
            None => {
                self.records.push(rec);
                proof {
                    let n = old_records.len() as int;
                    assert(self.records@[n] == rec);
                    assert forall|x: SyncRecord| #[trigger] self.records@.contains(x) && x.peer_id != peer_id implies old_records.contains(x) by {
                        let k = choose|k: int| 0 <= k < self.records@.len() && self.records@[k] == x;
                        assert(old_records[k] == x);
                    }
                    assert forall|x: SyncRecord| #[trigger] old_records.contains(x) && x.peer_id != peer_id implies self.records@.contains(x) by {
                        let k = choose|k: int| 0 <= k < old_records.len() && old_records[k] == x;
                        assert(self.records@[k] == x);
                    }
                    assert forall|x: int, y: int| 0 <= x < self.records@.len() && 0 <= y < self.records@.len() && x != y
                        implies (#[trigger] self.records@[x]).peer_id != (#[trigger] self.records@[y]).peer_id by {
                        if x < n { assert(self.records@[x] == old_records[x]); }
                        if y < n { assert(self.records@[y] == old_records[y]); }
                    }
                }
            },
        }
    }

    /// Drops the record of a peer whose connection closed.
    pub fn remove_peer(&mut self, peer_id: &InternalPeerID)
        requires
            old(self).wf(),
        ensures
            final(self).wf(),
            !has_peer(final(self).records(), *peer_id),
            forall|rec: SyncRecord| #[trigger] final(self).records().contains(rec) ==> old(self).records().contains(rec),
            forall|rec: SyncRecord| #[trigger] old(self).records().contains(rec) && rec.peer_id != *peer_id
                ==> final(self).records().contains(rec),
    {
        let ghost old_records = self.records@;
        if let Some(i) = self.find_peer(peer_id) {
            self.records.remove(i);
            proof {
                let r = self.records@;
                assert forall|k: int| 0 <= k < r.len() implies old_records.contains(#[trigger] r[k]) by {
                    if k < i { assert(r[k] == old_records[k]); } else { assert(r[k] == old_records[k + 1]); }
                }
                assert forall|x: SyncRecord| #[trigger] r.contains(x) implies old_records.contains(x) by {
                    let k = choose|k: int| 0 <= k < r.len() && r[k] == x;
                    assert(old_records.contains(r[k]));
                }
                assert forall|x: SyncRecord| #[trigger] old_records.contains(x) && x.peer_id != *peer_id implies r.contains(x) by {
                    let k = choose|k: int| 0 <= k < old_records.len() && old_records[k] == x;
                    if k < i { assert(r[k] == x); } else { assert(r[k - 1] == x); }
                }
                assert forall|x: int, y: int| 0 <= x < r.len() && 0 <= y < r.len() && x != y
                    implies (#[trigger] r[x]).peer_id != (#[trigger] r[y]).peer_id by {
                    let xo = if x < i { x } else { x + 1 };
                    let yo = if y < i { y } else { y + 1 };
                    assert(r[x] == old_records[xo] && r[y] == old_records[yo]);
                }
                if has_peer(r, *peer_id) {
                    let k = choose|k: int| 0 <= k < r.len() && (#[trigger] r[k]).peer_id == *peer_id;
                    let ko = if k < i { k } else { k + 1 };
                    assert(r[k] == old_records[ko]);
                }
            }
        }
    }

    /// Drops the records whose connection is among `closed`, as the transport
    /// layer reported them at selection time.
    pub fn remove_closed(&mut self, closed: &Vec<ConnectionHandle>)
        requires
            old(self).wf(),
        ensures
            final(self).wf(),
            forall|rec: SyncRecord| #[trigger] final(self).records().contains(rec)
                <==> old(self).records().contains(rec) && !closed@.contains(rec.handle),
    {
        let ghost old_records = self.records@;
        let mut kept: Vec<SyncRecord> = Vec::new();
        let mut i: usize = 0;
        while i < self.records.len()
            invariant
                i <= self.records.len(),
                self.records@ == old_records,
                unique_peers(old_records),
                forall|k: int| #![trigger kept@[k]] 0 <= k < kept.len() ==> exists|j: int| 0 <= j < i && #[trigger] old_records[j] == kept@[k],
                forall|k: int| 0 <= k < kept.len() ==> !closed@.contains(#[trigger] kept@[k].handle),
                forall|j: int| 0 <= j < i && !closed@.contains((#[trigger] old_records[j]).handle) ==> kept@.contains(old_records[j]),
                forall|x: int, y: int| 0 <= x < kept.len() && 0 <= y < kept.len() && x != y
                    ==> (#[trigger] kept@[x]).peer_id != (#[trigger] kept@[y]).peer_id,
                forall|k: int, j: int| 0 <= k < kept.len() && i <= j < old_records.len()
                    ==> (#[trigger] kept@[k]).peer_id != (#[trigger] old_records[j]).peer_id,
            decreases self.records.len() - i,
        {
            let rec = self.records[i];
            let mut is_closed = false;
            let mut c: usize = 0;
            while c < closed.len()
                invariant
                    c <= closed.len(),
                    is_closed <==> exists|m: int| 0 <= m < c && closed@[m] == rec.handle,
                decreases closed.len() - c,
            {
                if closed[c] == rec.handle {
                    is_closed = true;
                }
                c = c + 1;
            }
            if !is_closed {
                let ghost before = kept@;
                kept.push(rec);
                proof {
                    assert forall|k: int| #![trigger kept@[k]] 0 <= k < kept.len() implies exists|j: int| 0 <= j < i + 1 && #[trigger] old_records[j] == kept@[k] by {
                        if k < before.len() {
                            assert(kept@[k] == before[k]);
                        } else {
                            assert(old_records[i as int] == kept@[k]);
                        }
                    }
                    assert forall|j: int| 0 <= j < i + 1 && !closed@.contains((#[trigger] old_records[j]).handle)
                        implies kept@.contains(old_records[j]) by {
                        if j < i {
                            let m = choose|m: int| 0 <= m < before.len() && before[m] == old_records[j];
                            assert(kept@[m] == old_records[j]);
                        } else {
                            assert(kept@[before.len() as int] == old_records[j]);
                        }
                    }
                    assert forall|x: int, y: int| 0 <= x < kept.len() && 0 <= y < kept.len() && x != y
                        implies (#[trigger] kept@[x]).peer_id != (#[trigger] kept@[y]).peer_id by {
                        if x < before.len() && y < before.len() {
                            assert(kept@[x] == before[x] && kept@[y] == before[y]);
                        } else if x < before.len() {
                            assert(kept@[x] == before[x]);
                            assert(kept@[y] == old_records[i as int]);
                        } else if y < before.len() {
                            assert(kept@[y] == before[y]);
                            assert(kept@[x] == old_records[i as int]);
                        }
                    }
                    assert forall|k: int, j: int| 0 <= k < kept.len() && i + 1 <= j < old_records.len()
                        implies (#[trigger] kept@[k]).peer_id != (#[trigger] old_records[j]).peer_id by {
                        if k < before.len() {
                            assert(kept@[k] == before[k]);
                        } else {
                            assert(kept@[k] == old_records[i as int]);
                        }
                    }
                }
            } else {
                proof {
                    assert(closed@.contains(rec.handle));
                }
            }
            i = i + 1;
        }
        self.records = kept;
        proof {
            assert forall|rec: SyncRecord| #[trigger] self.records@.contains(rec)
                implies old_records.contains(rec) && !closed@.contains(rec.handle) by {
                let k = choose|k: int| 0 <= k < self.records@.len() && self.records@[k] == rec;
                let j = choose|j: int| 0 <= j < old_records.len() && #[trigger] old_records[j] == self.records@[k];
            }
        }
    }

    /// Every peer whose reported cumulative difficulty is strictly above ours
    /// and, where a block is needed, whose seed covers it; in record order.
    pub fn peers_to_sync_from(&self, current_cumulative_difficulty: u128, block_needed: Option<u64>) -> (r: Vec<InternalPeerID>)
        ensures
            r@ == candidates(self.records(), current_cumulative_difficulty, block_needed),
            forall|k: int| #![trigger r@[k]] 0 <= k < r.len() ==> exists|i: int| 0 <= i < self.records().len()
                && (#[trigger] self.records()[i]).peer_id == r@[k]
                && self.records()[i].data.cumulative_difficulty_spec() > current_cumulative_difficulty,
    {
        let mut r: Vec<InternalPeerID> = Vec::new();
        let mut i: usize = 0;
        while i < self.records.len()
            invariant
                i <= self.records.len(),
                r@ == candidates(self.records@.take(i as int), current_cumulative_difficulty, block_needed),
            decreases self.records.len() - i,
        {
            let ghost q = self.records@.take(i + 1);
            assert(q.drop_last() =~= self.records@.take(i as int));
            let rec = self.records[i];
            let mut qualifies = rec.data.cumulative_difficulty() > current_cumulative_difficulty;
            if qualifies {
                if let Some(h) = block_needed {
                    qualifies = match PruningSeed::decompress_p2p_rules(rec.data.pruning_seed) {
                        Ok(seed) => seed.covers(h),
                        Err(_) => false,
                    };
                }
            }
            if qualifies {
                r.push(rec.peer_id);
            }
            i = i + 1;
        }
        proof {
            assert(self.records@.take(self.records@.len() as int) =~= self.records@);
            lemma_candidates_qualify(self.records@, current_cumulative_difficulty, block_needed);
        }
        r
    }
}

} // verus!
