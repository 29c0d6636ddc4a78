use monero_p2p::peer::{ConnectionHandle, CoreSyncData, InternalPeerID, ZoneAddr};
use monero_p2p::services::{PeerSyncRequest, PeerSyncResponse};
use monero_p2p::sync_state::PeerSyncSvc;

fn data(difficulty: u64, seed: u32) -> CoreSyncData {
    CoreSyncData {
        cumulative_difficulty: difficulty,
        cumulative_difficulty_top64: 0,
        current_height: 100,
        pruning_seed: seed,
        top_version: 16,
    }
}

fn peer(n: u128) -> InternalPeerID {
    InternalPeerID::KnownAddr(ZoneAddr { host: n, port: 18080 })
}

#[test]
fn sync_peers_have_strictly_more_difficulty() {
    let mut svc = PeerSyncSvc::new();
    svc.incoming_core_sync_data(peer(1), ConnectionHandle { connection_id: 1 }, data(150, 0));
    svc.incoming_core_sync_data(peer(2), ConnectionHandle { connection_id: 2 }, data(50, 0));
    svc.incoming_core_sync_data(peer(3), ConnectionHandle { connection_id: 3 }, data(100, 0));
    assert_eq!(svc.peers_to_sync_from(100, None), vec![peer(1)]);
}

#[test]
fn no_peer_ahead_gives_empty() {
    let mut svc = PeerSyncSvc::new();
    assert!(svc.peers_to_sync_from(0, None).is_empty());
    svc.incoming_core_sync_data(InternalPeerID::Unknown(9), ConnectionHandle { connection_id: 1 }, data(10, 0));
    assert!(svc.peers_to_sync_from(10, None).is_empty());
    assert_eq!(svc.peers_to_sync_from(9, None), vec![InternalPeerID::Unknown(9)]);
}

#[test]
fn needed_block_filters_by_seed() {
    let mut svc = PeerSyncSvc::new();
    // stripe 1 of 8 keeps heights 0..4096, stripe 2 keeps 4096..8192
    svc.incoming_core_sync_data(peer(1), ConnectionHandle { connection_id: 1 }, data(200, 384));
    svc.incoming_core_sync_data(peer(2), ConnectionHandle { connection_id: 2 }, data(200, 385));
    svc.incoming_core_sync_data(peer(3), ConnectionHandle { connection_id: 3 }, data(200, 0));
    svc.incoming_core_sync_data(peer(4), ConnectionHandle { connection_id: 4 }, data(200, 256));
    assert_eq!(svc.peers_to_sync_from(100, Some(10)), vec![peer(1), peer(3)]);
    assert_eq!(svc.peers_to_sync_from(100, Some(5000)), vec![peer(2), peer(3)]);
}

#[test]
fn last_report_wins_and_removal_forgets() {
    let mut svc = PeerSyncSvc::new();
    svc.incoming_core_sync_data(peer(1), ConnectionHandle { connection_id: 1 }, data(150, 0));
    svc.incoming_core_sync_data(peer(1), ConnectionHandle { connection_id: 1 }, data(90, 0));
    assert!(svc.peers_to_sync_from(100, None).is_empty());
    svc.incoming_core_sync_data(peer(1), ConnectionHandle { connection_id: 1 }, data(120, 0));
    assert_eq!(svc.peers_to_sync_from(100, None), vec![peer(1)]);
    svc.remove_peer(&peer(1));
    assert!(svc.peers_to_sync_from(100, None).is_empty());
}

#[test]
fn sync_requests_dispatch() {
    let mut svc = PeerSyncSvc::new();
    let r = svc.handle_request(PeerSyncRequest::IncomingCoreSyncData(peer(5), ConnectionHandle { connection_id: 5 }, data(7, 0)));
    assert!(matches!(r, PeerSyncResponse::Done));
    match svc.handle_request(PeerSyncRequest::PeersToSyncFrom { current_cumulative_difficulty: 6, block_needed: None }) {
        PeerSyncResponse::PeersToSyncFrom(v) => assert_eq!(v, vec![peer(5)]),
        PeerSyncResponse::Done => panic!("expected peers"),
    }
}
