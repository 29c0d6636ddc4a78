//! The requests and responses of the zone services, and their dispatch.
use vstd::prelude::*;
use crate::address_book::{all_valid, usable, AddressBook, PeerEntry};
use crate::peer::{ConnectionHandle, CoreSyncData, InternalPeerID, ZoneAddr};
use crate::pruning::PruningSeed;
use crate::sync_state::{candidates, PeerSyncSvc};

verus! {

/// A request to the sync-state service.
pub enum PeerSyncRequest {
    /// The peers that claim a cumulative difficulty above ours and, where a
    /// block is needed, keep it.
    PeersToSyncFrom { current_cumulative_difficulty: u128, block_needed: Option<u64> },
    /// Adds or replaces a peer's chain summary.
    IncomingCoreSyncData(InternalPeerID, ConnectionHandle, CoreSyncData),
}

/// A response of the sync-state service.
pub enum PeerSyncResponse {
    /// The answer to `PeerSyncRequest::PeersToSyncFrom`.
    PeersToSyncFrom(Vec<InternalPeerID>),
    /// A generic acknowledgement.
    Done,
}

/// A request for our own chain summary.
pub struct CoreSyncDataRequest;

/// Our own chain summary.
pub struct CoreSyncDataResponse(pub CoreSyncData);

/// A request to the address book.
pub enum AddressBookRequest {
    /// A connection to or from a peer was made.
    NewConnection {
        internal_peer_id: InternalPeerID,
        public_address: Option<ZoneAddr>,
        handle: ConnectionHandle,
        id: u64,
        pruning_seed: PruningSeed,
        rpc_port: u16,
        rpc_credits_per_hash: u32,
    },
    /// A peer sent us its peer list.
    IncomingPeerList(Vec<PeerEntry>),
    /// A random usable white peer, for a height if one is given.
    TakeRandomWhitePeer { height: Option<u64> },
    /// A random usable gray peer, for a height if one is given.
    TakeRandomGrayPeer { height: Option<u64> },
    /// A random usable peer, white first, then gray.
    TakeRandomPeer { height: Option<u64> },
    /// Up to this many white peers.
    GetWhitePeers(usize),
    /// Whether the peer is banned.
    IsPeerBanned(ZoneAddr),
}

/// A response of the address book.
pub enum AddressBookResponse {
    /// A generic acknowledgement.
    Done,
    Peer(PeerEntry),
    /// No peer qualified.
    NoPeer,
    Peers(Vec<PeerEntry>),
    /// Holds `true` if the peer is banned.
    IsPeerBanned(bool),
}

impl AddressBookRequest {
    /// A request whose seeds are all valid, as the conversions at the wire
    /// boundary make them.
    pub open spec fn valid(&self) -> bool {
        match self {
            AddressBookRequest::NewConnection { pruning_seed, .. } => pruning_seed.valid(),
            AddressBookRequest::IncomingPeerList(entries) => all_valid(entries@),
            _ => true,
        }
    }
}

impl PeerSyncSvc {
    /// Answers one request.
    pub fn handle_request(&mut self, req: PeerSyncRequest) -> (r: PeerSyncResponse)
        requires
            old(self).wf(),
        ensures
            final(self).wf(),
            match req {
                PeerSyncRequest::PeersToSyncFrom { current_cumulative_difficulty, block_needed } => {
                    &&& r matches PeerSyncResponse::PeersToSyncFrom(v)
                        && v@ == candidates(old(self).records(), current_cumulative_difficulty, block_needed)
                    &&& final(self).records() == old(self).records()
                },
                PeerSyncRequest::IncomingCoreSyncData(peer_id, handle, data) => {
                    &&& r is Done
                    &&& final(self).records().contains(crate::sync_state::SyncRecord { peer_id, handle, data })
                    &&& forall|rec: crate::sync_state::SyncRecord| #[trigger] final(self).records().contains(rec)
                        && rec.peer_id != peer_id ==> old(self).records().contains(rec)
                    &&& forall|rec: crate::sync_state::SyncRecord| #[trigger] old(self).records().contains(rec)
                        && rec.peer_id != peer_id ==> final(self).records().contains(rec)
                },
            },
    {
        match req {
            PeerSyncRequest::PeersToSyncFrom { current_cumulative_difficulty, block_needed } => {
                PeerSyncResponse::PeersToSyncFrom(self.peers_to_sync_from(current_cumulative_difficulty, block_needed))
            },
            PeerSyncRequest::IncomingCoreSyncData(peer_id, handle, data) => {
                self.incoming_core_sync_data(peer_id, handle, data);
                PeerSyncResponse::Done
            },
        }
    }
}

impl AddressBook {
    /// Answers one request at time `now`; `last_seen` of a new connection's
    /// entry is `now`.
    pub fn handle_request(&mut self, req: AddressBookRequest, now: u64) -> (r: AddressBookResponse)
        requires
            old(self).wf(),
            req.valid(),
        ensures
            final(self).wf(),
            final(self).ban_list() == old(self).ban_list(),
            match req {
                AddressBookRequest::NewConnection { public_address, .. } => {
                    &&& r is Done
                    &&& public_address matches Some(a) ==> crate::address_book::has_addr(final(self).white_list(), a)
                },
                AddressBookRequest::IncomingPeerList(entries) => {
                    &&& r is Done
                    &&& final(self).white_list() == old(self).white_list()
                    &&& forall|e: PeerEntry| #[trigger] final(self).gray_list().contains(e) ==> old(self).gray_list().contains(e)
                        || (entries@.contains(e) && old(self).accepts_gossip(e, now))
                    &&& entries.len() > 0 && old(self).accepts_gossip(entries@.last(), now)
                        ==> final(self).gray_list().contains(entries@.last())
                },
                AddressBookRequest::TakeRandomWhitePeer { height } => {
                    &&& final(self).same_state(*old(self))
                    &&& (r is NoPeer <==> !exists|j: int| 0 <= j < old(self).white_list().len()
                        && usable(#[trigger] old(self).white_list()[j], old(self).ban_list(), height, now))
                    &&& (r is Peer || r is NoPeer)
                    &&& r matches AddressBookResponse::Peer(e) ==> old(self).white_list().contains(e)
                        && usable(e, old(self).ban_list(), height, now)
                },
                AddressBookRequest::TakeRandomGrayPeer { height } => {
                    &&& final(self).same_state(*old(self))
                    &&& (r is NoPeer <==> !exists|j: int| 0 <= j < old(self).gray_list().len()
                        && usable(#[trigger] old(self).gray_list()[j], old(self).ban_list(), height, now))
                    &&& (r is Peer || r is NoPeer)
                    &&& r matches AddressBookResponse::Peer(e) ==> old(self).gray_list().contains(e)
                        && usable(e, old(self).ban_list(), height, now)
                },
                AddressBookRequest::TakeRandomPeer { height } => {
                    &&& final(self).same_state(*old(self))
                    &&& (r is Peer || r is NoPeer)
                    &&& r matches AddressBookResponse::Peer(e) ==> (old(self).white_list().contains(e)
                        || old(self).gray_list().contains(e)) && usable(e, old(self).ban_list(), height, now)
                    &&& (r is NoPeer <==> !(exists|j: int| 0 <= j < old(self).white_list().len()
                        && usable(#[trigger] old(self).white_list()[j], old(self).ban_list(), height, now))
                        && !(exists|j: int| 0 <= j < old(self).gray_list().len()
                        && usable(#[trigger] old(self).gray_list()[j], old(self).ban_list(), height, now)))
                },
                AddressBookRequest::GetWhitePeers(n) => {
                    &&& final(self).same_state(*old(self))
                    &&& r matches AddressBookResponse::Peers(v)
                        && v@ == old(self).usable_white(now).take(
                            vstd::math::min(n as int, old(self).usable_white(now).len() as int),
                        )
                },
                AddressBookRequest::IsPeerBanned(a) => {
                    &&& final(self).same_state(*old(self))
                    &&& r == AddressBookResponse::IsPeerBanned(old(self).is_banned_spec(a.host, now))
                },
            },
    {
        match req {
            AddressBookRequest::NewConnection {
                internal_peer_id,
                public_address,
                handle,
                id,
                pruning_seed,
                rpc_port,
                rpc_credits_per_hash,
            } => {
                let ghost before = *self;
                self.new_connection(
                    internal_peer_id,
                    public_address,
                    handle,
                    id,
                    pruning_seed,
                    rpc_port,
                    rpc_credits_per_hash,
                    now as i64,
                );
                proof {
                    if let Some(a) = public_address {
                        let e = crate::address_book::connection_entry(a, id, now as i64, pruning_seed, rpc_port, rpc_credits_per_hash);
                        let k = choose|k: int| 0 <= k < self.white_list().len() && self.white_list()[k] == e;
                        assert(self.white_list()[k].adr == a);
                    }
                }
                AddressBookResponse::Done
            },
            AddressBookRequest::IncomingPeerList(entries) => {
                self.incoming_peer_list(&entries, now);
                AddressBookResponse::Done
            },
            AddressBookRequest::TakeRandomWhitePeer { height } => match self.take_random_white_peer(height, now) {
                Some(e) => AddressBookResponse::Peer(e),
                None => AddressBookResponse::NoPeer,
            },
            AddressBookRequest::TakeRandomGrayPeer { height } => match self.take_random_gray_peer(height, now) {
                Some(e) => AddressBookResponse::Peer(e),
                None => AddressBookResponse::NoPeer,
            },
            AddressBookRequest::TakeRandomPeer { height } => match self.take_random_peer(height, now) {
                Some(e) => AddressBookResponse::Peer(e),
                None => AddressBookResponse::NoPeer,
            },
            AddressBookRequest::GetWhitePeers(n) => AddressBookResponse::Peers(self.get_white_peers(n, now)),
            AddressBookRequest::IsPeerBanned(a) => AddressBookResponse::IsPeerBanned(self.is_peer_banned(&a, now)),
        }
    }
}

} // verus!
