use monero_p2p::address_book::{AddressBook, PeerEntry};
use monero_p2p::peer::{ConnectionHandle, InternalPeerID, NetZone, ZoneAddr};
use monero_p2p::pruning::{DecompressedPruningSeed, PruningSeed};
use monero_p2p::services::{AddressBookRequest, AddressBookResponse};

fn addr(host: u128) -> ZoneAddr {
    ZoneAddr { host, port: 18080 }
}

fn entry(host: u128, seed: PruningSeed) -> PeerEntry {
    PeerEntry {
        adr: addr(host),
        id: host as u64,
        last_seen: 1000,
        pruning_seed: seed,
        rpc_port: 0,
        rpc_credits_per_hash: 0,
    }
}

fn connect(book: &mut AddressBook, host: u128, seed: PruningSeed) {
    book.new_connection(
        InternalPeerID::KnownAddr(addr(host)),
        Some(addr(host)),
        ConnectionHandle { connection_id: host as u64 },
        host as u64,
        seed,
        0,
        0,
        1000,
    );
}

fn stripe(s: u32) -> PruningSeed {
    PruningSeed::Pruned(DecompressedPruningSeed { log_stripes: 3, stripe: s })
}

#[test]
fn end_to_end_first_connection() {
    let mut book = AddressBook::new(NetZone::Public, 10, 10, 1);
    assert_eq!(book.take_random_white_peer(None, 0), None);
    connect(&mut book, 1, PruningSeed::NotPruned);
    let peers = book.get_white_peers(5, 0);
    assert_eq!(peers.len(), 1);
    assert_eq!(peers[0].adr, addr(1));
    let p = book.take_random_peer(Some(1000), 0).unwrap();
    assert_eq!(p.adr, addr(1));
}

#[test]
fn white_peers_count_is_min_of_n_and_list() {
    let mut book = AddressBook::new(NetZone::Public, 10, 10, 7);
    for h in 1..=4u128 {
        connect(&mut book, h, PruningSeed::NotPruned);
    }
    for n in 0..8usize {
        let peers = book.get_white_peers(n, 0);
        assert_eq!(peers.len(), n.min(4));
        for i in 0..peers.len() {
            for j in 0..peers.len() {
                if i != j {
                    assert_ne!(peers[i].adr, peers[j].adr);
                }
            }
        }
    }
}

#[test]
fn connected_peer_is_not_banned_and_listed() {
    let mut book = AddressBook::new(NetZone::Tor, 10, 10, 3);
    connect(&mut book, 5, stripe(1));
    assert!(!book.is_peer_banned(&addr(5), 100));
    assert!(book.get_white_peers(10, 100).iter().any(|e| e.adr == addr(5)));
}

#[test]
fn gossip_skips_white_and_banned_addresses() {
    let mut book = AddressBook::new(NetZone::Public, 10, 10, 3);
    connect(&mut book, 1, PruningSeed::NotPruned);
    let closed = book.ban_peer(&addr(2), 500);
    assert!(closed.is_empty());
    book.incoming_peer_list(&vec![entry(1, PruningSeed::NotPruned), entry(2, PruningSeed::NotPruned), entry(3, PruningSeed::NotPruned)], 100);
    assert_eq!(book.take_random_gray_peer(None, 100).map(|e| e.adr), Some(addr(3)));
    // only entry 3 is gray: asking many times never yields 1 or 2
    for _ in 0..20 {
        let e = book.take_random_gray_peer(None, 600).unwrap();
        assert_eq!(e.adr, addr(3));
    }
    // once the ban expired, gossip of 2 is taken in
    book.incoming_peer_list(&vec![entry(2, PruningSeed::NotPruned)], 600);
    let mut seen2 = false;
    for _ in 0..50 {
        if book.take_random_gray_peer(None, 600).unwrap().adr == addr(2) {
            seen2 = true;
        }
    }
    assert!(seen2);
}

#[test]
fn full_gray_list_evicts_one() {
    let mut book = AddressBook::new(NetZone::Public, 3, 3, 11);
    book.incoming_peer_list(&vec![entry(1, PruningSeed::NotPruned), entry(2, PruningSeed::NotPruned), entry(3, PruningSeed::NotPruned)], 0);
    book.incoming_peer_list(&vec![entry(4, PruningSeed::NotPruned)], 0);
    let mut seen = std::collections::BTreeSet::new();
    for _ in 0..200 {
        seen.insert(book.take_random_gray_peer(None, 0).unwrap().adr.host);
    }
    assert_eq!(seen.len(), 3);
    assert!(seen.contains(&4));
}

#[test]
fn full_white_list_evicts_one() {
    let mut book = AddressBook::new(NetZone::Public, 2, 2, 5);
    for h in 1..=5u128 {
        connect(&mut book, h, PruningSeed::NotPruned);
        let peers = book.get_white_peers(10, 0);
        assert!(peers.len() <= 2);
        assert!(peers.iter().any(|e| e.adr == addr(h)));
    }
}

#[test]
fn connection_promotes_gray_to_white() {
    let mut book = AddressBook::new(NetZone::Public, 5, 5, 2);
    book.incoming_peer_list(&vec![entry(8, PruningSeed::NotPruned)], 0);
    connect(&mut book, 8, PruningSeed::NotPruned);
    assert_eq!(book.take_random_gray_peer(None, 0), None);
    assert_eq!(book.take_random_white_peer(None, 0).map(|e| e.adr), Some(addr(8)));
}

#[test]
fn height_selects_by_stripe() {
    let mut book = AddressBook::new(NetZone::Public, 5, 5, 2);
    connect(&mut book, 1, stripe(1));
    book.incoming_peer_list(&vec![entry(2, stripe(2))], 0);
    assert_eq!(book.take_random_white_peer(Some(5000), 0), None);
    assert_eq!(book.take_random_peer(Some(5000), 0).map(|e| e.adr), Some(addr(2)));
    assert_eq!(book.take_random_peer(Some(10), 0).map(|e| e.adr), Some(addr(1)));
    assert_eq!(book.take_random_peer(Some(8192), 0), None);
}

#[test]
fn ban_returns_handles_and_hides_peer() {
    let mut book = AddressBook::new(NetZone::Public, 5, 5, 2);
    connect(&mut book, 1, PruningSeed::NotPruned);
    connect(&mut book, 2, PruningSeed::NotPruned);
    let handles = book.ban_peer(&addr(1), 100);
    assert_eq!(handles, vec![ConnectionHandle { connection_id: 1 }]);
    assert!(book.is_peer_banned(&addr(1), 99));
    assert!(!book.is_peer_banned(&addr(1), 100));
    assert!(!book.is_peer_banned(&addr(2), 50));
    let peers = book.get_white_peers(10, 50);
    assert_eq!(peers.len(), 1);
    assert_eq!(peers[0].adr, addr(2));
    assert_eq!(book.get_white_peers(10, 100).len(), 2);
}

#[test]
fn address_book_requests_dispatch() {
    let mut book = AddressBook::new(NetZone::Public, 5, 5, 2);
    let r = book.handle_request(
        AddressBookRequest::NewConnection {
            internal_peer_id: InternalPeerID::Unknown(1),
            public_address: Some(addr(3)),
            handle: ConnectionHandle { connection_id: 1 },
            id: 3,
            pruning_seed: PruningSeed::NotPruned,
            rpc_port: 0,
            rpc_credits_per_hash: 0,
        },
        10,
    );
    assert!(matches!(r, AddressBookResponse::Done));
    match book.handle_request(AddressBookRequest::GetWhitePeers(3), 10) {
        AddressBookResponse::Peers(v) => {
            assert_eq!(v.len(), 1);
            assert_eq!(v[0].last_seen, 10);
        }
        _ => panic!("expected peers"),
    }
    assert!(matches!(book.handle_request(AddressBookRequest::IsPeerBanned(addr(3)), 10), AddressBookResponse::IsPeerBanned(false)));
    assert!(matches!(book.handle_request(AddressBookRequest::TakeRandomGrayPeer { height: None }, 10), AddressBookResponse::NoPeer));
}
