//! Addresses, peer identifiers and peer-list entries, in their zone-scoped and
//! wire forms.
use vstd::prelude::*;
use crate::pruning::{PruningError, PruningSeed};

verus! {

/// A transport realm with an address space of its own.
#[derive(Debug, Clone, Copy, PartialEq, Eq, Structural)]
pub enum NetZone {
    Public,
    Tor,
    I2p,
}

/// A zone-agnostic address as it travels on the wire: the zone is its
/// discriminant.
#[derive(Debug, Clone, Copy, PartialEq, Eq, Structural)]
pub struct NetworkAddress {
    pub zone: NetZone,
    pub host: u128,
    pub port: u16,
}

/// An address inside one zone, which the zone's services hold it to.
#[derive(Debug, Clone, Copy, PartialEq, Eq, Structural)]
pub struct ZoneAddr {
    pub host: u128,
    pub port: u16,
}

/// A wire address was of another zone than the one asked for.
#[derive(Debug, Clone, Copy, PartialEq, Eq, Structural)]
pub struct NetworkAddressIncorrectZone;

impl ZoneAddr {
    /// Narrows a wire address to `zone`.
    pub fn try_from_network_address(adr: NetworkAddress, zone: NetZone) -> (r: Result<
        ZoneAddr,
        NetworkAddressIncorrectZone,
    >)
        ensures
            adr.zone == zone ==> r == Ok::<ZoneAddr, NetworkAddressIncorrectZone>(
                ZoneAddr { host: adr.host, port: adr.port },
            ),
            adr.zone != zone ==> r == Err::<ZoneAddr, NetworkAddressIncorrectZone>(
                NetworkAddressIncorrectZone,
            ),
    {
        if adr.zone == zone {
            Ok(ZoneAddr { host: adr.host, port: adr.port })
        } else {
            Err(NetworkAddressIncorrectZone)
        }
    }

    /// Widens the address back to the wire form of `zone`.
    pub fn to_network_address(&self, zone: NetZone) -> (r: NetworkAddress)
        ensures
            r == (NetworkAddress { zone, host: self.host, port: self.port }),
    {
        NetworkAddress { zone, host: self.host, port: self.port }
    }
}

/// Identifies a live connection: by the peer's address where it has one we can
/// reach, else by a locally chosen number.
#[derive(Debug, Clone, Copy, PartialEq, Eq, Structural)]
pub enum InternalPeerID {
    KnownAddr(ZoneAddr),
    Unknown(u64),
}

/// A non-owning reference to a live connection, through which the transport
/// layer can be asked to close it.
#[derive(Debug, Clone, Copy, PartialEq, Eq, Structural)]
pub struct ConnectionHandle {
    pub connection_id: u64,
}

/// A peer's self-reported chain summary, as it comes from the wire.
#[derive(Debug, Clone, Copy, PartialEq, Eq, Structural)]
pub struct CoreSyncData {
    pub cumulative_difficulty: u64,
    pub cumulative_difficulty_top64: u64,
    pub current_height: u64,
    pub pruning_seed: u32,
    pub top_version: u8,
}

impl CoreSyncData {
    /// The 128-bit cumulative difficulty made of its two halves.
    pub open spec fn cumulative_difficulty_spec(self) -> int {
        self.cumulative_difficulty_top64 * 0x1_0000_0000_0000_0000int + self.cumulative_difficulty
    }

    /// Joins the two halves of the cumulative difficulty.
    pub fn cumulative_difficulty(&self) -> (r: u128)
        ensures
            r as int == self.cumulative_difficulty_spec(),
    {
        let hi = self.cumulative_difficulty_top64 as u128;
        let lo = self.cumulative_difficulty as u128;
        assert(hi * 0x1_0000_0000_0000_0000u128 + lo <= u128::MAX) by (nonlinear_arith)
            requires
                hi < 0x1_0000_0000_0000_0000u128,
                lo < 0x1_0000_0000_0000_0000u128,
        ;
        hi * 0x1_0000_0000_0000_0000u128 + lo
    }
}

/// A peer-list entry in its wire form.
#[derive(Debug, Clone, Copy, PartialEq, Eq, Structural)]
pub struct PeerListEntryBase {
    pub adr: NetworkAddress,
    pub id: u64,
    pub last_seen: i64,
    pub pruning_seed: u32,
    pub rpc_port: u16,
    pub rpc_credits_per_hash: u32,
}

/// A peer-list entry of one zone.
#[derive(Debug, Clone, Copy, PartialEq, Eq, Structural)]
pub struct ZoneSpecificPeerListEntryBase {
    pub adr: ZoneAddr,
    pub id: u64,
    pub last_seen: i64,
    pub pruning_seed: PruningSeed,
    pub rpc_port: u16,
    pub rpc_credits_per_hash: u32,
}

/// Why a wire entry could not be taken into a zone.
#[derive(Debug, Clone, Copy, PartialEq, Eq, Structural)]
pub enum PeerListConversionError {
    Address(NetworkAddressIncorrectZone),
    PruningSeed(PruningError),
}

impl ZoneSpecificPeerListEntryBase {
    pub open spec fn valid(self) -> bool {
        self.pruning_seed.valid()
    }

    /// The wire form of the entry in `zone`.
    pub open spec fn to_wire_spec(self, zone: NetZone) -> PeerListEntryBase {
        PeerListEntryBase {
            adr: NetworkAddress { zone, host: self.adr.host, port: self.adr.port },
            id: self.id,
            last_seen: self.last_seen,
            pruning_seed: self.pruning_seed.compress_spec() as u32,
            rpc_port: self.rpc_port,
            rpc_credits_per_hash: self.rpc_credits_per_hash,
        }
    }

    /// What reading a wire entry into `zone` gives: the address error first,
    /// then the pruning-seed error.
    pub open spec fn from_wire_spec(value: PeerListEntryBase, zone: NetZone) -> Result<
        ZoneSpecificPeerListEntryBase,
        PeerListConversionError,
    > {
        if value.adr.zone != zone {
            Err(PeerListConversionError::Address(NetworkAddressIncorrectZone))
        } else {
            match PruningSeed::decompress_p2p_spec(value.pruning_seed) {
                Err(e) => Err(PeerListConversionError::PruningSeed(e)),
                Ok(seed) => Ok(
                    ZoneSpecificPeerListEntryBase {
                        adr: ZoneAddr { host: value.adr.host, port: value.adr.port },
                        id: value.id,
                        last_seen: value.last_seen,
                        pruning_seed: seed,
                        rpc_port: value.rpc_port,
                        rpc_credits_per_hash: value.rpc_credits_per_hash,
                    },
                ),
            }
        }
    }

    /// Widens the entry to its wire form in `zone`; this cannot fail.
    pub fn to_wire(&self, zone: NetZone) -> (r: PeerListEntryBase)
        requires
            self.valid(),
        ensures
            r == self.to_wire_spec(zone),
    {
        PeerListEntryBase {
            adr: self.adr.to_network_address(zone),
            id: self.id,
            last_seen: self.last_seen,
            pruning_seed: self.pruning_seed.compress(),
            rpc_port: self.rpc_port,
            rpc_credits_per_hash: self.rpc_credits_per_hash,
        }
    }

    /// Reads a wire entry into `zone`, under the peer-to-peer pruning rules.
    pub fn try_from_wire(value: PeerListEntryBase, zone: NetZone) -> (r: Result<
        ZoneSpecificPeerListEntryBase,
        PeerListConversionError,
    >)
        ensures
            r == Self::from_wire_spec(value, zone),
            r matches Ok(e) ==> e.valid(),
    {
        let adr = match ZoneAddr::try_from_network_address(value.adr, zone) {
            Ok(a) => a,
            Err(e) => {
                return Err(PeerListConversionError::Address(e));
            },
        };
        let pruning_seed = match PruningSeed::decompress_p2p_rules(value.pruning_seed) {
            Ok(s) => s,
            Err(e) => {
                return Err(PeerListConversionError::PruningSeed(e));
            },
        };
        Ok(
            ZoneSpecificPeerListEntryBase {
                adr,
                id: value.id,
                last_seen: value.last_seen,
                pruning_seed,
                rpc_port: value.rpc_port,
                rpc_credits_per_hash: value.rpc_credits_per_hash,
            },
        )
    }
}

/// The entries of a gossiped list that convert into `zone`, in order.
pub open spec fn convertible(list: Seq<PeerListEntryBase>, zone: NetZone) -> Seq<
    ZoneSpecificPeerListEntryBase,
>
    decreases list.len(),
{
    if list.len() == 0 {
        Seq::empty()
    } else {
        let rest = convertible(list.drop_last(), zone);
        match ZoneSpecificPeerListEntryBase::from_wire_spec(list.last(), zone) {
            Ok(e) => rest.push(e),
            Err(_) => rest,
        }
    }
}

/// Converts a gossiped list into `zone`, dropping each entry that fails and
/// keeping the rest.
pub fn convert_peer_list(list: &Vec<PeerListEntryBase>, zone: NetZone) -> (r: Vec<
    ZoneSpecificPeerListEntryBase,
>)
    ensures
        r@ == convertible(list@, zone),
        forall|i: int| 0 <= i < r.len() ==> (#[trigger] r@[i]).valid(),
{
    let mut r: Vec<ZoneSpecificPeerListEntryBase> = Vec::new();
    let mut i: usize = 0;
    while i < list.len()
        invariant
            i <= list.len(),
            r@ == convertible(list@.take(i as int), zone),
            forall|j: int| 0 <= j < r.len() ==> (#[trigger] r@[j]).valid(),
        decreases list.len() - i,
    {
        assert(list@.take(i + 1).drop_last() =~= list@.take(i as int));
        match ZoneSpecificPeerListEntryBase::try_from_wire(list[i], zone) {
            Ok(e) => r.push(e),
            Err(_) => {},
        }
        i = i + 1;
    }
    assert(list@.take(list.len() as int) =~= list@);
    r
}

/// Reading back the wire form of a valid entry, under the peer-to-peer rules,
/// gives the entry when its seed is unpruned or has the canonical stripe count.
pub proof fn lemma_entry_round_trip(e: ZoneSpecificPeerListEntryBase, zone: NetZone)
    requires
        e.valid(),
        e.pruning_seed matches PruningSeed::Pruned(d) ==> d.log_stripes == crate::pruning::P2P_LOG_STRIPES,
    ensures
        ZoneSpecificPeerListEntryBase::from_wire_spec(e.to_wire_spec(zone), zone) == Ok::<
            ZoneSpecificPeerListEntryBase,
            PeerListConversionError,
        >(e),
{
    crate::pruning::lemma_decompress_compress(e.pruning_seed);
}

} // verus!
