use monero_p2p::peer::{
    convert_peer_list, CoreSyncData, NetZone, NetworkAddress, NetworkAddressIncorrectZone,
    PeerListConversionError, PeerListEntryBase, ZoneAddr, ZoneSpecificPeerListEntryBase,
};
use monero_p2p::pruning::{DecompressedPruningSeed, PruningError, PruningSeed};

fn wire(zone: NetZone, host: u128, seed: u32) -> PeerListEntryBase {
    PeerListEntryBase {
        adr: NetworkAddress { zone, host, port: 18080 },
        id: 7,
        last_seen: 1_700_000_000,
        pruning_seed: seed,
        rpc_port: 18081,
        rpc_credits_per_hash: 3,
    }
}

#[test]
fn wire_entry_converts_into_its_zone() {
    let e = ZoneSpecificPeerListEntryBase::try_from_wire(wire(NetZone::Public, 42, 386), NetZone::Public).unwrap();
    assert_eq!(e.adr, ZoneAddr { host: 42, port: 18080 });
    assert_eq!(e.id, 7);
    assert_eq!(e.last_seen, 1_700_000_000);
    assert_eq!(e.pruning_seed, PruningSeed::Pruned(DecompressedPruningSeed { log_stripes: 3, stripe: 3 }));
    assert_eq!(e.rpc_port, 18081);
    assert_eq!(e.rpc_credits_per_hash, 3);
    assert_eq!(e.to_wire(NetZone::Public), wire(NetZone::Public, 42, 386));
}

#[test]
fn wrong_zone_is_refused() {
    assert_eq!(
        ZoneSpecificPeerListEntryBase::try_from_wire(wire(NetZone::Tor, 42, 0), NetZone::Public),
        Err(PeerListConversionError::Address(NetworkAddressIncorrectZone))
    );
}

#[test]
fn bad_seed_is_refused() {
    assert_eq!(
        ZoneSpecificPeerListEntryBase::try_from_wire(wire(NetZone::Public, 42, 256), NetZone::Public),
        Err(PeerListConversionError::PruningSeed(PruningError::LogStripesOutOfRange))
    );
    assert_eq!(
        ZoneSpecificPeerListEntryBase::try_from_wire(wire(NetZone::Public, 42, 5000), NetZone::Public),
        Err(PeerListConversionError::PruningSeed(PruningError::UnusedBitsSet))
    );
}

#[test]
fn batch_conversion_drops_bad_entries() {
    let list = vec![
        wire(NetZone::Public, 1, 0),
        wire(NetZone::Tor, 2, 0),
        wire(NetZone::Public, 3, 256),
        wire(NetZone::Public, 4, 384),
    ];
    let out = convert_peer_list(&list, NetZone::Public);
    assert_eq!(out.len(), 2);
    assert_eq!(out[0].adr.host, 1);
    assert_eq!(out[1].adr.host, 4);
}

#[test]
fn address_widens_and_narrows() {
    let a = ZoneAddr { host: 9, port: 1 };
    let n = a.to_network_address(NetZone::I2p);
    assert_eq!(n, NetworkAddress { zone: NetZone::I2p, host: 9, port: 1 });
    assert_eq!(ZoneAddr::try_from_network_address(n, NetZone::I2p), Ok(a));
    assert_eq!(ZoneAddr::try_from_network_address(n, NetZone::Tor), Err(NetworkAddressIncorrectZone));
}

#[test]
fn cumulative_difficulty_joins_halves() {
    let d = CoreSyncData {
        cumulative_difficulty: 5,
        cumulative_difficulty_top64: 2,
        current_height: 10,
        pruning_seed: 0,
        top_version: 16,
    };
    assert_eq!(d.cumulative_difficulty(), (2u128 << 64) + 5);
}
