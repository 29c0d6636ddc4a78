//! The address book of one network zone: white and gray peer lists, bans, and
//! the connections on record.
use vstd::prelude::*;
use crate::peer::{ConnectionHandle, InternalPeerID, NetZone, ZoneAddr, ZoneSpecificPeerListEntryBase};
use crate::pruning::PruningSeed;
use vstd::math::min;

verus! {

pub type PeerEntry = ZoneSpecificPeerListEntryBase;

/// A ban on a host until a point in time (unix seconds, exclusive).
#[derive(Debug, Clone, Copy, PartialEq, Eq, Structural)]
pub struct BanEntry {
    pub host: u128,
    pub until: u64,
}

/// A connection that the address book was told of.
#[derive(Debug, Clone, Copy, PartialEq, Eq, Structural)]
pub struct ConnectedPeer {
    pub peer_id: InternalPeerID,
    pub public_address: Option<ZoneAddr>,
    pub handle: ConnectionHandle,
}

/// Whether some entry of `s` has address `a`.
pub open spec fn has_addr(s: Seq<PeerEntry>, a: ZoneAddr) -> bool {
    exists|i: int| 0 <= i < s.len() && (#[trigger] s[i]).adr == a
}

/// No two entries of `s` share an address.
pub open spec fn unique_addrs(s: Seq<PeerEntry>) -> bool {
    forall|i: int, j: int| 0 <= i < s.len() && 0 <= j < s.len() && i != j ==> (#[trigger] s[i]).adr != (#[trigger] s[j]).adr
}

/// Every entry of `s` has a valid pruning seed.
pub open spec fn all_valid(s: Seq<PeerEntry>) -> bool {
    forall|i: int| 0 <= i < s.len() ==> (#[trigger] s[i]).valid()
}

/// No two ban entries share a host.
pub open spec fn unique_hosts(bans: Seq<BanEntry>) -> bool {
    forall|i: int, j: int| 0 <= i < bans.len() && 0 <= j < bans.len() && i != j
        ==> (#[trigger] bans[i]).host != (#[trigger] bans[j]).host
}

/// Whether `host` has a ban that has not expired at `now`.
pub open spec fn host_banned(bans: Seq<BanEntry>, host: u128, now: u64) -> bool {
    exists|i: int| 0 <= i < bans.len() && (#[trigger] bans[i]).host == host && now < bans[i].until
}

/// Whether an entry may be handed out for `height` at `now`: its host is not
/// banned and, where a height is asked for, its seed covers it.
pub open spec fn usable(e: PeerEntry, bans: Seq<BanEntry>, height: Option<u64>, now: u64) -> bool {
    &&& !host_banned(bans, e.adr.host, now)
    &&& match height {
        None => true,
        Some(h) => e.pruning_seed.covers_spec(h as int),
    }
}

/// The entries of `s` that are usable, in order.
pub open spec fn usable_entries(s: Seq<PeerEntry>, bans: Seq<BanEntry>, height: Option<u64>, now: u64) -> Seq<PeerEntry>
    decreases s.len(),
{
    if s.len() == 0 {
        Seq::empty()
    } else {
        let rest = usable_entries(s.drop_last(), bans, height, now);
        if usable(s.last(), bans, height, now) {
            rest.push(s.last())
        } else {
            rest
        }
    }
}

/// Whether a connection was made to or from `host`.
pub open spec fn connection_of_host(c: ConnectedPeer, host: u128) -> bool {
    ||| c.peer_id matches InternalPeerID::KnownAddr(a) && a.host == host
    ||| c.public_address matches Some(a) && a.host == host
}

/// Whether `h` is the handle of a connection of `cs` made to or from `host`.
pub open spec fn is_handle_of_host(cs: Seq<ConnectedPeer>, host: u128, h: ConnectionHandle) -> bool {
    exists|c: int| 0 <= c < cs.len() && (#[trigger] cs[c]).handle == h && connection_of_host(cs[c], host)
}

/// The entry that a new connection puts in the white list.
pub open spec fn connection_entry(
    a: ZoneAddr,
    id: u64,
    last_seen: i64,
    pruning_seed: PruningSeed,
    rpc_port: u16,
    rpc_credits_per_hash: u32,
) -> PeerEntry {
    ZoneSpecificPeerListEntryBase { adr: a, id, last_seen, pruning_seed, rpc_port, rpc_credits_per_hash }
}

/// What a new connection with a public address leaves: a well-formed book
/// with the same bans, whose white list holds the connection's entry.
pub open spec fn connection_recorded(before: AddressBook, after: AddressBook, e: PeerEntry) -> bool {
    &&& after.wf()
    &&& after.ban_list() == before.ban_list()
    &&& after.white_list().contains(e)
}

/// After a connection with a public address whose host was not banned, the
/// host is still not banned and the entry is among the white peers handed
/// out when as many are asked for as the white list holds.
pub proof fn lemma_connected_peer_listed(before: AddressBook, after: AddressBook, e: PeerEntry, now: u64, n: usize)
    requires
        connection_recorded(before, after, e),
        !before.is_banned_spec(e.adr.host, now),
        n >= after.white_list().len(),
    ensures
        !after.is_banned_spec(e.adr.host, now),
        after.usable_white(now).take(min(n as int, after.usable_white(now).len() as int)).contains(e),
{
    lemma_usable_entries(after.white_list(), after.ban_list(), None, now);
    lemma_usable_entries_complete(after.white_list(), after.ban_list(), None, now, e);
    let u = after.usable_white(now);
    assert(u.take(u.len() as int) =~= u);
}

/// Peers of one zone: a white list of peers we connected to, a gray list of
/// peers we only heard of, and bans.
pub struct AddressBook {
    zone: NetZone,
    white: Vec<PeerEntry>,
    gray: Vec<PeerEntry>,
    white_capacity: usize,
    gray_capacity: usize,
    bans: Vec<BanEntry>,
    connections: Vec<ConnectedPeer>,
    rng_state: u64,
}

impl AddressBook {
    pub closed spec fn zone_spec(&self) -> NetZone {
        self.zone
    }

    pub closed spec fn white_list(&self) -> Seq<PeerEntry> {
        self.white@
    }

    pub closed spec fn gray_list(&self) -> Seq<PeerEntry> {
        self.gray@
    }

    pub closed spec fn white_capacity_spec(&self) -> nat {
        self.white_capacity as nat
    }

    pub closed spec fn gray_capacity_spec(&self) -> nat {
        self.gray_capacity as nat
    }

    pub closed spec fn ban_list(&self) -> Seq<BanEntry> {
        self.bans@
    }

    pub closed spec fn connection_list(&self) -> Seq<ConnectedPeer> {
        self.connections@
    }

    /// The book's invariant: both lists within capacity, no address twice in a
    /// list nor in both lists, every seed valid, one ban entry per host.
    pub open spec fn wf(&self) -> bool {
        &&& self.white_list().len() <= self.white_capacity_spec()
        &&& 1 <= self.white_capacity_spec()
        &&& self.gray_list().len() <= self.gray_capacity_spec()
        &&& 1 <= self.gray_capacity_spec()
        &&& unique_addrs(self.white_list())
        &&& unique_addrs(self.gray_list())
        &&& all_valid(self.white_list())
        &&& all_valid(self.gray_list())
        &&& forall|a: ZoneAddr| has_addr(self.white_list(), a) ==> !has_addr(self.gray_list(), a)
        &&& unique_hosts(self.ban_list())
    }

    /// The white-list entries that are not banned at `now`, in order.
    pub open spec fn usable_white(&self, now: u64) -> Seq<PeerEntry> {
        usable_entries(self.white_list(), self.ban_list(), None, now)
    }

    /// Everything but the generator of random choices is as in `other`.
    pub open spec fn same_state(&self, other: AddressBook) -> bool {
        &&& self.zone_spec() == other.zone_spec()
        &&& self.white_list() == other.white_list()
        &&& self.gray_list() == other.gray_list()
        &&& self.white_capacity_spec() == other.white_capacity_spec()
        &&& self.gray_capacity_spec() == other.gray_capacity_spec()
        &&& self.ban_list() == other.ban_list()
        &&& self.connection_list() == other.connection_list()
    }

    pub open spec fn is_banned_spec(&self, host: u128, now: u64) -> bool {
        host_banned(self.ban_list(), host, now)
    }

    /// An empty book for `zone`; `seed` starts the random choices.
    pub fn new(zone: NetZone, white_capacity: usize, gray_capacity: usize, seed: u64) -> (r: AddressBook)
        requires
            white_capacity >= 1,
            gray_capacity >= 1,
        ensures
            r.wf(),
            r.zone_spec() == zone,
            r.white_list().len() == 0,
            r.gray_list().len() == 0,
            r.ban_list().len() == 0,
            r.connection_list().len() == 0,
            r.white_capacity_spec() == white_capacity,
            r.gray_capacity_spec() == gray_capacity,
    {
        AddressBook {
            zone,
            white: Vec::new(),
            gray: Vec::new(),
            white_capacity,
            gray_capacity,
            bans: Vec::new(),
            connections: Vec::new(),
            rng_state: seed,
        }
    }

    /// The zone this book serves.
    pub fn zone(&self) -> (r: NetZone)
        ensures
            r == self.zone_spec(),
    {
        self.zone
    }

    /// A random index below `n`; only the generator's state changes.
    fn random_index(&mut self, n: usize) -> (r: usize)
        requires
            n >= 1,
        ensures
            r < n,
            final(self).zone == old(self).zone,
            final(self).white == old(self).white,
            final(self).gray == old(self).gray,
            final(self).white_capacity == old(self).white_capacity,
            final(self).gray_capacity == old(self).gray_capacity,
            final(self).bans == old(self).bans,
            final(self).connections == old(self).connections,
    {
        self.rng_state = self.rng_state.wrapping_mul(6364136223846793005u64).wrapping_add(1442695040888963407u64);
        ((self.rng_state >> 33u64) % (n as u64)) as usize
    }
}


/// The index of the entry of `list` with address `a`, if any.
fn find_addr(list: &Vec<PeerEntry>, a: &ZoneAddr) -> (r: Option<usize>)
    ensures
        r matches Some(i) ==> i < list.len() && list@[i as int].adr == *a,
        r is None ==> !has_addr(list@, *a),
{
    let mut i: usize = 0;
    while i < list.len()
        invariant
            i <= list.len(),
            forall|j: int| 0 <= j < i ==> (#[trigger] list@[j]).adr != *a,
        decreases list.len() - i,
    {
        if list[i].adr == *a {
            return Some(i);
        }
        i = i + 1;
    }
    None
}

/// Whether `host` is banned at `now` by an entry of `bans`.
fn find_ban(bans: &Vec<BanEntry>, host: u128) -> (r: Option<usize>)
    ensures
        r matches Some(i) ==> i < bans.len() && bans@[i as int].host == host,
        r is None ==> forall|j: int| 0 <= j < bans.len() ==> (#[trigger] bans@[j]).host != host,
{
    let mut i: usize = 0;
    while i < bans.len()
        invariant
            i <= bans.len(),
            forall|j: int| 0 <= j < i ==> (#[trigger] bans@[j]).host != host,
        decreases bans.len() - i,
    {
        if bans[i].host == host {
            return Some(i);
        }
        i = i + 1;
    }
    None
}


/// Whether `host` has a ban in `bans` that has not expired at `now`.
fn host_is_banned(bans: &Vec<BanEntry>, host: u128, now: u64) -> (r: bool)
    requires
        unique_hosts(bans@),
    ensures
        r == host_banned(bans@, host, now),
{
    match find_ban(bans, host) {
        Some(i) => {
            proof {
                if host_banned(bans@, host, now) && now >= bans@[i as int].until {
                    let j = choose|j: int| 0 <= j < bans@.len() && (#[trigger] bans@[j]).host == host && now < bans@[j].until;
                    assert(i != j);
                }
            }
            now < bans[i].until
        },
        None => false,
    }
}

/// Whether an entry may be handed out for `height` at `now`.
fn entry_usable(e: &PeerEntry, bans: &Vec<BanEntry>, height: Option<u64>, now: u64) -> (r: bool)
    requires
        unique_hosts(bans@),
        e.valid(),
    ensures
        r == usable(*e, bans@, height, now),
{
    if host_is_banned(bans, e.adr.host, now) {
        return false;
    }
    match height {
        None => true,
        Some(h) => e.pruning_seed.covers(h),
    }
}

/// The indices of the usable entries of `list`.
fn usable_indices(list: &Vec<PeerEntry>, bans: &Vec<BanEntry>, height: Option<u64>, now: u64) -> (r: Vec<usize>)
    requires
        unique_hosts(bans@),
        all_valid(list@),
    ensures
        forall|k: int| 0 <= k < r.len() ==> #[trigger] r@[k] < list.len() && usable(list@[r@[k] as int], bans@, height, now),
        (exists|j: int| 0 <= j < list.len() && usable(#[trigger] list@[j], bans@, height, now)) ==> r.len() > 0,
{
    let mut r: Vec<usize> = Vec::new();
    let mut i: usize = 0;
    while i < list.len()
        invariant
            i <= list.len(),
            unique_hosts(bans@),
            all_valid(list@),
            forall|k: int| 0 <= k < r.len() ==> #[trigger] r@[k] < list.len() && usable(list@[r@[k] as int], bans@, height, now),
            (exists|j: int| 0 <= j < i && usable(#[trigger] list@[j], bans@, height, now)) ==> r.len() > 0,
        decreases list.len() - i,
    {
        assert(list@[i as int].valid());
        if entry_usable(&list[i], bans, height, now) {
            r.push(i);
        }
        i = i + 1;
    }
    r
}

/// The usable entries of a list are entries of it, and usable; where the
/// list's addresses are unique, so are theirs.
proof fn lemma_usable_entries(s: Seq<PeerEntry>, bans: Seq<BanEntry>, height: Option<u64>, now: u64)
    ensures
        forall|k: int| 0 <= k < usable_entries(s, bans, height, now).len() ==> s.contains(
            #[trigger] usable_entries(s, bans, height, now)[k],
        ) && usable(usable_entries(s, bans, height, now)[k], bans, height, now),
        unique_addrs(s) ==> unique_addrs(usable_entries(s, bans, height, now)),
        (forall|k: int| 0 <= k < s.len() ==> usable(#[trigger] s[k], bans, height, now))
            ==> usable_entries(s, bans, height, now) == s,
    decreases s.len(),
{
    if s.len() > 0 {
        let p = s.drop_last();
        lemma_usable_entries(p, bans, height, now);
        let rp = usable_entries(p, bans, height, now);
        let r = usable_entries(s, bans, height, now);
        assert forall|k: int| 0 <= k < r.len() implies s.contains(#[trigger] r[k]) && usable(r[k], bans, height, now) by {
            if k < rp.len() {
                assert(r[k] == rp[k]);
                let m = choose|m: int| 0 <= m < p.len() && p[m] == rp[k];
                assert(s[m] == p[m]);
            } else {
                assert(r[k] == s.last());
            }
        }
        if unique_addrs(s) {
            assert(unique_addrs(p)) by {
                assert forall|i: int, j: int| 0 <= i < p.len() && 0 <= j < p.len() && i != j implies (#[trigger] p[i]).adr != (#[trigger] p[j]).adr by {
                    assert(p[i] == s[i] && p[j] == s[j]);
                }
            }
            assert forall|i: int, j: int| 0 <= i < r.len() && 0 <= j < r.len() && i != j implies (#[trigger] r[i]).adr != (#[trigger] r[j]).adr by {
                if i < rp.len() && j < rp.len() {
                    assert(r[i] == rp[i] && r[j] == rp[j]);
                } else if i < rp.len() {
                    assert(r[i] == rp[i]);
                    let m = choose|m: int| 0 <= m < p.len() && p[m] == rp[i];
                    assert(s[m] == p[m]);
                    assert(r[j] == s[s.len() - 1]);
                } else if j < rp.len() {
                    assert(r[j] == rp[j]);
                    let m = choose|m: int| 0 <= m < p.len() && p[m] == rp[j];
                    assert(s[m] == p[m]);
                    assert(r[i] == s[s.len() - 1]);
                }
            }
        }
        if forall|k: int| 0 <= k < s.len() ==> usable(#[trigger] s[k], bans, height, now) {
            assert forall|k: int| 0 <= k < p.len() implies usable(#[trigger] p[k], bans, height, now) by {
                assert(p[k] == s[k]);
            }
            assert(usable(s[s.len() - 1], bans, height, now));
            assert(s =~= p.push(s.last()));
        }
    }
}


/// The handles of the connections made to or from `host`.
fn handles_of_host(connections: &Vec<ConnectedPeer>, host: u128) -> (r: Vec<ConnectionHandle>)
    ensures
        forall|k: int| 0 <= k < r.len() ==> is_handle_of_host(connections@, host, #[trigger] r@[k]),
        forall|c: int| 0 <= c < connections@.len() && connection_of_host(#[trigger] connections@[c], host)
            ==> r@.contains(connections@[c].handle),
{
        let mut r: Vec<ConnectionHandle> = Vec::new();
        let mut i: usize = 0;
        while i < connections.len()
            invariant
                i <= connections.len(),
                forall|k: int| 0 <= k < r.len() ==> is_handle_of_host(connections@, host, #[trigger] r@[k]),
                forall|c: int| 0 <= c < i && connection_of_host(#[trigger] connections@[c], host)
                    ==> r@.contains(connections@[c].handle),
            decreases connections.len() - i,
        {
            let c = connections[i];
            let by_id = match c.peer_id {
                InternalPeerID::KnownAddr(a) => a.host == host,
                InternalPeerID::Unknown(_) => false,
            };
            let by_public = match c.public_address {
                Some(a) => a.host == host,
                None => false,
            };
            if by_id || by_public {
                let ghost old_r = r@;
                r.push(c.handle);
                proof {
                    assert(r@[r.len() - 1] == c.handle);
                    assert forall|k: int| 0 <= k < r.len() implies is_handle_of_host(connections@, host, #[trigger] r@[k]) by {
                        if k == r.len() - 1 { assert(connections@[i as int] == c); } else { assert(r@[k] == old_r[k]); }
                    }
                    assert forall|cc: int| 0 <= cc < i + 1 && connection_of_host(#[trigger] connections@[cc], host)
                        implies r@.contains(connections@[cc].handle) by {
                        if cc == i { assert(r@[r.len() - 1] == c.handle); } else {
                            assert(old_r.contains(connections@[cc].handle));
                            let m = choose|m: int| 0 <= m < old_r.len() && old_r[m] == connections@[cc].handle;
                            assert(r@[m] == connections@[cc].handle);
                        }
                    }
                }
            }
            i = i + 1;
        }
        r
}

/// Every usable entry of a list is among its usable entries, and there are
/// no more of those than entries.
proof fn lemma_usable_entries_complete(s: Seq<PeerEntry>, bans: Seq<BanEntry>, height: Option<u64>, now: u64, e: PeerEntry)
    ensures
        usable_entries(s, bans, height, now).len() <= s.len(),
        s.contains(e) && usable(e, bans, height, now) ==> usable_entries(s, bans, height, now).contains(e),
    decreases s.len(),
{
    if s.len() > 0 {
        let p = s.drop_last();
        lemma_usable_entries_complete(p, bans, height, now, e);
        let rp = usable_entries(p, bans, height, now);
        let r = usable_entries(s, bans, height, now);
        if s.contains(e) && usable(e, bans, height, now) {
            let k = choose|k: int| 0 <= k < s.len() && s[k] == e;
            if k < s.len() - 1 {
                assert(p[k] == e);
                let m = choose|m: int| 0 <= m < rp.len() && rp[m] == e;
                assert(r[m] == e);
            } else {
                assert(r[r.len() - 1] == e);
            }
        }
    }
}

/// Removing one entry from a list keeps its addresses unique, and every
/// remaining entry was in the list.
proof fn lemma_remove_keeps(s: Seq<PeerEntry>, i: int)
    requires
        0 <= i < s.len(),
        unique_addrs(s),
        all_valid(s),
    ensures
        unique_addrs(s.remove(i)),
        all_valid(s.remove(i)),
        !has_addr(s.remove(i), s[i].adr),
        forall|a: ZoneAddr| a != s[i].adr ==> (has_addr(s.remove(i), a) <==> has_addr(s, a)),
        forall|k: int| 0 <= k < s.remove(i).len() ==> s.contains(#[trigger] s.remove(i)[k]),
        forall|k: int| 0 <= k < s.len() && k != i ==> s.remove(i).contains(#[trigger] s[k]),
{
    let r = s.remove(i);
    assert forall|k: int| 0 <= k < r.len() implies s.contains(#[trigger] r[k]) by {
        if k < i { assert(r[k] == s[k]); } else { assert(r[k] == s[k + 1]); }
    }
    assert forall|k: int| 0 <= k < s.len() && k != i implies r.contains(#[trigger] s[k]) by {
        if k < i { assert(r[k] == s[k]); } else { assert(r[k - 1] == s[k]); }
    }
    assert forall|a: ZoneAddr| a != s[i].adr implies (has_addr(r, a) <==> has_addr(s, a)) by {
        if has_addr(s, a) {
            let k = choose|k: int| 0 <= k < s.len() && (#[trigger] s[k]).adr == a;
            assert(r.contains(s[k]));
        }
        if has_addr(r, a) {
            let k = choose|k: int| 0 <= k < r.len() && (#[trigger] r[k]).adr == a;
            assert(s.contains(r[k]));
        }
    }
    assert(!has_addr(r, s[i].adr)) by {
        if has_addr(r, s[i].adr) {
            let k = choose|k: int| 0 <= k < r.len() && (#[trigger] r[k]).adr == s[i].adr;
            if k < i { assert(r[k] == s[k]); } else { assert(r[k] == s[k + 1]); }
        }
    }
}

impl AddressBook {
    /// Whether the address's host has a ban that has not expired at `now`.
    pub fn is_peer_banned(&self, addr: &ZoneAddr, now: u64) -> (r: bool)
        requires
            self.wf(),
        ensures
            r == self.is_banned_spec(addr.host, now),
    {
        host_is_banned(&self.bans, addr.host, now)
    }

    /// Bans the address's host until `until`, replacing any earlier ban of it,
    /// and returns the handles of the connections on record with that host,
    /// which the transport layer is to close.
    pub fn ban_peer(&mut self, addr: &ZoneAddr, until: u64) -> (r: Vec<ConnectionHandle>)
        requires
            old(self).wf(),
        ensures
            final(self).wf(),
            final(self).zone_spec() == old(self).zone_spec(),
            final(self).white_capacity_spec() == old(self).white_capacity_spec(),
            final(self).gray_capacity_spec() == old(self).gray_capacity_spec(),
            final(self).white_list() == old(self).white_list(),
            final(self).gray_list() == old(self).gray_list(),
            final(self).connection_list() == old(self).connection_list(),
            forall|h: u128, now: u64| #[trigger] final(self).is_banned_spec(h, now)
                == if h == addr.host { now < until } else { old(self).is_banned_spec(h, now) },
            forall|k: int| 0 <= k < r.len() ==> is_handle_of_host(old(self).connection_list(), addr.host, #[trigger] r@[k]),
            forall|c: int| 0 <= c < old(self).connection_list().len() && connection_of_host(
                #[trigger] old(self).connection_list()[c], addr.host) ==> r@.contains(old(self).connection_list()[c].handle),
    {
        let ghost old_bans = self.bans@;
        let ban = BanEntry { host: addr.host, until };
        match find_ban(&self.bans, addr.host) {
            Some(i) => {
                self.bans.set(i, ban);
                proof {
                    assert forall|h: u128, now: u64| #[trigger] host_banned(self.bans@, h, now)
                        == if h == addr.host { now < until } else { host_banned(old_bans, h, now) } by {
                        if h == addr.host {
                            if host_banned(self.bans@, h, now) {
                                let j = choose|j: int| 0 <= j < self.bans@.len() && (#[trigger] self.bans@[j]).host == h && now < self.bans@[j].until;
                                assert(j == i);
                            }
                            if now < until { assert(self.bans@[i as int] == ban); }
                        } else {
                            if host_banned(self.bans@, h, now) {
                                let j = choose|j: int| 0 <= j < self.bans@.len() && (#[trigger] self.bans@[j]).host == h && now < self.bans@[j].until;
                                assert(old_bans[j] == self.bans@[j]);
                            }
                            if host_banned(old_bans, h, now) {
                                let j = choose|j: int| 0 <= j < old_bans.len() && (#[trigger] old_bans[j]).host == h && now < old_bans[j].until;
                                assert(old_bans[j] == self.bans@[j]);
                            }
                        }
                    }
                    assert(unique_hosts(self.bans@)) by {
                        assert forall|x: int, y: int| 0 <= x < self.bans@.len() && 0 <= y < self.bans@.len() && x != y
                            implies (#[trigger] self.bans@[x]).host != (#[trigger] self.bans@[y]).host by {
                            if x != i && y != i { assert(self.bans@[x] == old_bans[x] && self.bans@[y] == old_bans[y]); }
                            else if x == i { assert(self.bans@[y] == old_bans[y]); }
                            else { assert(self.bans@[x] == old_bans[x]); }
                        }
                    }
                }
            },
            None => {
                self.bans.push(ban);
                proof {
                    let n = old_bans.len() as int;
                    assert(self.bans@[n] == ban);
                    assert forall|h: u128, now: u64| #[trigger] host_banned(self.bans@, h, now)
                        == if h == addr.host { now < until } else { host_banned(old_bans, h, now) } by {
                        if host_banned(self.bans@, h, now) {
                            let j = choose|j: int| 0 <= j < self.bans@.len() && (#[trigger] self.bans@[j]).host == h && now < self.bans@[j].until;
                            if j < n { assert(old_bans[j] == self.bans@[j]); }
                        }
                        if h != addr.host && host_banned(old_bans, h, now) {
                            let j = choose|j: int| 0 <= j < old_bans.len() && (#[trigger] old_bans[j]).host == h && now < old_bans[j].until;
                            assert(old_bans[j] == self.bans@[j]);
                        }
                    }
                    assert(unique_hosts(self.bans@)) by {
                        assert forall|x: int, y: int| 0 <= x < self.bans@.len() && 0 <= y < self.bans@.len() && x != y
                            implies (#[trigger] self.bans@[x]).host != (#[trigger] self.bans@[y]).host by {
                            if x < n { assert(self.bans@[x] == old_bans[x]); }
                            if y < n { assert(self.bans@[y] == old_bans[y]); }
                        }
                    }
                }
            },
        }
        handles_of_host(&self.connections, addr.host)
    }

    /// A random white-list entry that is usable for `height` at `now`, or
    /// none where no entry is.
    pub fn take_random_white_peer(&mut self, height: Option<u64>, now: u64) -> (r: Option<PeerEntry>)
        requires
            old(self).wf(),
        ensures
            final(self).wf(),
            final(self).same_state(*old(self)),
            r is None <==> !exists|j: int| 0 <= j < old(self).white_list().len()
                && usable(#[trigger] old(self).white_list()[j], old(self).ban_list(), height, now),
            r matches Some(e) ==> old(self).white_list().contains(e) && usable(e, old(self).ban_list(), height, now),
    {
        let c = usable_indices(&self.white, &self.bans, height, now);
        if c.len() == 0 {
            return None;
        }
        let k = self.random_index(c.len());
        Some(self.white[c[k]])
    }

    /// A random gray-list entry that is usable for `height` at `now`, or none
    /// where no entry is.
    pub fn take_random_gray_peer(&mut self, height: Option<u64>, now: u64) -> (r: Option<PeerEntry>)
        requires
            old(self).wf(),
        ensures
            final(self).wf(),
            final(self).same_state(*old(self)),
            r is None <==> !exists|j: int| 0 <= j < old(self).gray_list().len()
                && usable(#[trigger] old(self).gray_list()[j], old(self).ban_list(), height, now),
            r matches Some(e) ==> old(self).gray_list().contains(e) && usable(e, old(self).ban_list(), height, now),
    {
        let c = usable_indices(&self.gray, &self.bans, height, now);
        if c.len() == 0 {
            return None;
        }
        let k = self.random_index(c.len());
        Some(self.gray[c[k]])
    }

    /// A random usable white-list entry, else a random usable gray-list entry,
    /// else none.
    pub fn take_random_peer(&mut self, height: Option<u64>, now: u64) -> (r: Option<PeerEntry>)
        requires
            old(self).wf(),
        ensures
            final(self).wf(),
            final(self).same_state(*old(self)),
            r is None <==> !(exists|j: int| 0 <= j < old(self).white_list().len()
                && usable(#[trigger] old(self).white_list()[j], old(self).ban_list(), height, now))
                && !(exists|j: int| 0 <= j < old(self).gray_list().len()
                && usable(#[trigger] old(self).gray_list()[j], old(self).ban_list(), height, now)),
            (exists|j: int| 0 <= j < old(self).white_list().len()
                && usable(#[trigger] old(self).white_list()[j], old(self).ban_list(), height, now))
                ==> (r matches Some(e) && old(self).white_list().contains(e)),
            r matches Some(e) ==> (old(self).white_list().contains(e) || old(self).gray_list().contains(e))
                && usable(e, old(self).ban_list(), height, now),
    {
        match self.take_random_white_peer(height, now) {
            Some(e) => Some(e),
            None => self.take_random_gray_peer(height, now),
        }
    }

    /// Up to `n` distinct white-list entries that are not banned at `now`: the
    /// first `min(n, m)` of the `m` such entries, in list order.
    pub fn get_white_peers(&self, n: usize, now: u64) -> (r: Vec<PeerEntry>)
        requires
            self.wf(),
        ensures
            r@ == self.usable_white(now).take(min(n as int, self.usable_white(now).len() as int)),
            r.len() == min(n as int, self.usable_white(now).len() as int),
            unique_addrs(r@),
            forall|k: int| 0 <= k < r.len() ==> self.white_list().contains(#[trigger] r@[k])
                && !self.is_banned_spec(r@[k].adr.host, now),
            (forall|k: int| 0 <= k < self.white_list().len() ==> !self.is_banned_spec(
                #[trigger] self.white_list()[k].adr.host, now)) ==> r.len() == min(n as int, self.white_list().len() as int),
    {
        let mut r: Vec<PeerEntry> = Vec::new();
        let mut i: usize = 0;
        while i < self.white.len()
            invariant
                self.wf(),
                i <= self.white.len(),
                r@ == usable_entries(self.white@.take(i as int), self.bans@, None, now).take(
                    min(n as int, usable_entries(self.white@.take(i as int), self.bans@, None, now).len() as int)),
            decreases self.white.len() - i,
        {
            let ghost p = self.white@.take(i as int);
            let ghost q = self.white@.take(i + 1);
            assert(q.drop_last() =~= p);
            assert(q.last() == self.white@[i as int]);
            assert(self.white@[i as int].valid());
            if entry_usable(&self.white[i], &self.bans, None, now) {
                if r.len() < n {
                    r.push(self.white[i]);
                    assert(r@ =~= usable_entries(q, self.bans@, None, now).take(
                        min(n as int, usable_entries(q, self.bans@, None, now).len() as int)));
                } else {
                    assert(r@ =~= usable_entries(q, self.bans@, None, now).take(
                        min(n as int, usable_entries(q, self.bans@, None, now).len() as int)));
                }
            }
            i = i + 1;
        }
        proof {
            assert(self.white@.take(self.white@.len() as int) =~= self.white@);
            let u = self.usable_white(now);
            lemma_usable_entries(self.white@, self.bans@, None, now);
            assert forall|k: int| 0 <= k < r.len() implies self.white_list().contains(#[trigger] r@[k])
                && !self.is_banned_spec(r@[k].adr.host, now) by {
                assert(r@[k] == u[k]);
            }
            assert forall|x: int, y: int| 0 <= x < r.len() && 0 <= y < r.len() && x != y implies (#[trigger] r@[x]).adr != (#[trigger] r@[y]).adr by {
                assert(r@[x] == u[x] && r@[y] == u[y]);
            }
            if forall|k: int| 0 <= k < self.white_list().len() ==> !self.is_banned_spec(#[trigger] self.white_list()[k].adr.host, now) {
                assert forall|k: int| 0 <= k < self.white@.len() implies usable(#[trigger] self.white@[k], self.bans@, None, now) by {
                    assert(!self.is_banned_spec(self.white_list()[k].adr.host, now));
                }
            }
        }
        r
    }

    /// Whether a gossiped entry may enter the gray list: its address is not
    /// white-listed and its host is not banned at `now`.
    pub open spec fn accepts_gossip(&self, e: PeerEntry, now: u64) -> bool {
        !has_addr(self.white_list(), e.adr) && !self.is_banned_spec(e.adr.host, now)
    }

    /// Puts an accepted entry in the gray list: it replaces the entry with the
    /// same address, else a random member is evicted when the list is full.
    fn insert_gray(&mut self, entry: PeerEntry, Ghost(now): Ghost<u64>)
        requires
            old(self).wf(),
            entry.valid(),
            old(self).accepts_gossip(entry, now),
        ensures
            final(self).wf(),
            final(self).zone == old(self).zone,
            final(self).white == old(self).white,
            final(self).white_capacity == old(self).white_capacity,
            final(self).gray_capacity == old(self).gray_capacity,
            final(self).bans == old(self).bans,
            final(self).connections == old(self).connections,
            final(self).gray@.contains(entry),
            forall|e: PeerEntry| #[trigger] final(self).gray@.contains(e) ==> e == entry || old(self).gray@.contains(e),
            final(self).gray@.len() <= old(self).gray@.len() + 1,
            old(self).gray@.len() < old(self).gray_capacity ==> forall|a: ZoneAddr|
                has_addr(old(self).gray@, a) ==> has_addr(final(self).gray@, a),
    {
        let ghost old_gray = self.gray@;
        match find_addr(&self.gray, &entry.adr) {
            Some(g) => {
                self.gray.set(g, entry);
                proof {
                    assert(self.gray@[g as int] == entry);
                    assert forall|e: PeerEntry| #[trigger] self.gray@.contains(e) implies e == entry || old_gray.contains(e) by {
                        let k = choose|k: int| 0 <= k < self.gray@.len() && self.gray@[k] == e;
                        if k != g { assert(old_gray[k] == e); }
                    }
                    assert forall|x: ZoneAddr| has_addr(old_gray, x) implies has_addr(self.gray@, x) by {
                        let k = choose|k: int| 0 <= k < old_gray.len() && (#[trigger] old_gray[k]).adr == x;
                        assert(self.gray@[k].adr == x);
                    }
                    assert forall|x: ZoneAddr| has_addr(self.gray@, x) implies has_addr(old_gray, x) by {
                        let k = choose|k: int| 0 <= k < self.gray@.len() && (#[trigger] self.gray@[k]).adr == x;
                        assert(old_gray[k].adr == x);
                    }
                }
            },
            None => {
                if self.gray.len() >= self.gray_capacity {
                    let k = self.random_index(self.gray.len());
                    proof {
                        lemma_remove_keeps(self.gray@, k as int);
                    }
                    self.gray.remove(k);
                }
                let ghost mid = self.gray@;
                self.gray.push(entry);
                proof {
                    assert(self.gray@[mid.len() as int] == entry);
                    assert forall|e: PeerEntry| #[trigger] self.gray@.contains(e) implies e == entry || old_gray.contains(e) by {
                        let k = choose|k: int| 0 <= k < self.gray@.len() && self.gray@[k] == e;
                        if k < mid.len() { assert(mid[k] == e); assert(mid.contains(e)); }
                    }
                    assert forall|x: ZoneAddr| has_addr(self.gray@, x) && x != entry.adr implies has_addr(old_gray, x) by {
                        let k = choose|k: int| 0 <= k < self.gray@.len() && (#[trigger] self.gray@[k]).adr == x;
                        assert(mid[k] == self.gray@[k]);
                        assert(mid.contains(self.gray@[k]));
                        let k2 = choose|k2: int| 0 <= k2 < old_gray.len() && old_gray[k2] == mid[k];
                    }
                    assert forall|x: ZoneAddr| has_addr(old_gray, x) && old_gray.len() < self.gray_capacity implies has_addr(self.gray@, x) by {
                        let k = choose|k: int| 0 <= k < old_gray.len() && (#[trigger] old_gray[k]).adr == x;
                        assert(self.gray@[k] == old_gray[k]);
                    }
                }
            },
        }
    }

    /// Takes in a gossiped peer list: each entry whose address is neither
    /// white-listed nor banned at `now` goes to the gray list (see
    /// `insert_gray`); the others are ignored.
    pub fn incoming_peer_list(&mut self, entries: &Vec<PeerEntry>, now: u64)
        requires
            old(self).wf(),
            all_valid(entries@),
        ensures
            final(self).wf(),
            final(self).zone_spec() == old(self).zone_spec(),
            final(self).white_capacity_spec() == old(self).white_capacity_spec(),
            final(self).gray_capacity_spec() == old(self).gray_capacity_spec(),
            final(self).white_list() == old(self).white_list(),
            final(self).ban_list() == old(self).ban_list(),
            final(self).connection_list() == old(self).connection_list(),
            forall|e: PeerEntry| #[trigger] final(self).gray_list().contains(e) ==> old(self).gray_list().contains(e)
                || (entries@.contains(e) && old(self).accepts_gossip(e, now)),
            forall|a: ZoneAddr| has_addr(old(self).white_list(), a) ==> !has_addr(final(self).gray_list(), a),
            forall|a: ZoneAddr| #![trigger has_addr(final(self).gray_list(), a)]
                !has_addr(old(self).gray_list(), a) && old(self).is_banned_spec(a.host, now)
                ==> !has_addr(final(self).gray_list(), a),
            entries.len() > 0 && old(self).accepts_gossip(entries@.last(), now)
                ==> final(self).gray_list().contains(entries@.last()),
            old(self).gray_list().len() + entries.len() <= old(self).gray_capacity_spec() ==> forall|j: int|
                0 <= j < entries.len() && old(self).accepts_gossip(#[trigger] entries@[j], now)
                ==> has_addr(final(self).gray_list(), entries@[j].adr),
    {
        let ghost old_book = *self;
        let no_eviction: bool = self.gray.len() <= self.gray_capacity && entries.len() <= self.gray_capacity - self.gray.len();
        let mut i: usize = 0;
        while i < entries.len()
            invariant
                self.wf(),
                i <= entries.len(),
                all_valid(entries@),
                self.zone == old_book.zone,
                self.white == old_book.white,
                self.white_capacity == old_book.white_capacity,
                self.gray_capacity == old_book.gray_capacity,
                self.bans == old_book.bans,
                self.connections == old_book.connections,
                no_eviction == (old_book.gray@.len() + entries.len() <= old_book.gray_capacity),
                forall|e: PeerEntry| #[trigger] self.gray@.contains(e) ==> old_book.gray@.contains(e)
                    || (entries@.contains(e) && old_book.accepts_gossip(e, now)),
                i > 0 && old_book.accepts_gossip(entries@[i - 1], now) ==> self.gray@.contains(entries@[i - 1]),
                no_eviction ==> self.gray@.len() <= old_book.gray@.len() + i,
                no_eviction ==> forall|j: int| 0 <= j < i && old_book.accepts_gossip(#[trigger] entries@[j], now)
                    ==> has_addr(self.gray@, entries@[j].adr),
            decreases entries.len() - i,
        {
            let e = entries[i];
            assert(entries@[i as int].valid());
            let accepted = find_addr(&self.white, &e.adr).is_none() && !self.is_peer_banned(&e.adr, now);
            if accepted {
                let ghost before = self.gray@;
                self.insert_gray(e, Ghost(now));
                proof {
                    assert forall|x: PeerEntry| #[trigger] self.gray@.contains(x) implies old_book.gray@.contains(x)
                        || (entries@.contains(x) && old_book.accepts_gossip(x, now)) by {
                        if x != e { assert(before.contains(x)); } else { assert(entries@[i as int] == x); }
                    }
                    if no_eviction {
                        assert forall|j: int| 0 <= j < i + 1 && old_book.accepts_gossip(#[trigger] entries@[j], now)
                            implies has_addr(self.gray@, entries@[j].adr) by {
                            if j < i { assert(has_addr(before, entries@[j].adr)); } else {
                                let k = choose|k: int| 0 <= k < self.gray@.len() && self.gray@[k] == e;
                            }
                        }
                    }
                }
            }
            i = i + 1;
        }
        proof {
            assert(self.white_list() == old_book.white_list());
            assert forall|a: ZoneAddr| #![trigger has_addr(self.gray_list(), a)]
                !has_addr(old_book.gray_list(), a) && old_book.is_banned_spec(a.host, now)
                implies !has_addr(self.gray_list(), a) by {
                if has_addr(self.gray@, a) {
                    let k = choose|k: int| 0 <= k < self.gray@.len() && (#[trigger] self.gray@[k]).adr == a;
                    assert(self.gray@.contains(self.gray@[k]));
                    if old_book.gray@.contains(self.gray@[k]) {
                        let k2 = choose|k2: int| 0 <= k2 < old_book.gray@.len() && old_book.gray@[k2] == self.gray@[k];
                        assert(has_addr(old_book.gray@, a));
                    }
                }
            }
        }
    }

    /// Records a new connection. Where the peer has a public address, an
    /// entry for it goes to the white list (replacing one for the same address,
    /// else evicting a random member when the list is full) and leaves the gray
    /// list. Bans are not touched.
    pub fn new_connection(
        &mut self,
        internal_peer_id: InternalPeerID,
        public_address: Option<ZoneAddr>,
        handle: ConnectionHandle,
        id: u64,
        pruning_seed: PruningSeed,
        rpc_port: u16,
        rpc_credits_per_hash: u32,
        last_seen: i64,
    )
        requires
            old(self).wf(),
            pruning_seed.valid(),
        ensures
            final(self).wf(),
            final(self).zone_spec() == old(self).zone_spec(),
            final(self).white_capacity_spec() == old(self).white_capacity_spec(),
            final(self).gray_capacity_spec() == old(self).gray_capacity_spec(),
            final(self).ban_list() == old(self).ban_list(),
            final(self).connection_list() == old(self).connection_list().push(
                (ConnectedPeer { peer_id: internal_peer_id, public_address, handle }),
            ),
            public_address is None ==> final(self).white_list() == old(self).white_list()
                && final(self).gray_list() == old(self).gray_list(),
            public_address matches Some(a) ==> connection_recorded(
                *old(self),
                *final(self),
                connection_entry(a, id, last_seen, pruning_seed, rpc_port, rpc_credits_per_hash),
            ),
            public_address matches Some(a) ==> {
                &&& final(self).white_list().contains(
                    connection_entry(a, id, last_seen, pruning_seed, rpc_port, rpc_credits_per_hash),
                )
                &&& !has_addr(final(self).gray_list(), a)
                &&& forall|e: PeerEntry| #[trigger] final(self).white_list().contains(e) && e.adr != a
                    ==> old(self).white_list().contains(e)
                &&& (has_addr(old(self).white_list(), a) || old(self).white_list().len() < old(self).white_capacity_spec())
                    ==> forall|e: PeerEntry| #[trigger] old(self).white_list().contains(e) && e.adr != a
                    ==> final(self).white_list().contains(e)
                &&& forall|e: PeerEntry| #[trigger] final(self).gray_list().contains(e) ==> old(self).gray_list().contains(e)
                &&& forall|e: PeerEntry| #[trigger] old(self).gray_list().contains(e) && e.adr != a
                    ==> final(self).gray_list().contains(e)
            },
    {
        self.connections.push(ConnectedPeer { peer_id: internal_peer_id, public_address, handle });
        let a = match public_address {
            Some(a) => a,
            None => {
                return;
            },
        };
        let entry = ZoneSpecificPeerListEntryBase {
            adr: a,
            id,
            last_seen,
            pruning_seed,
            rpc_port,
            rpc_credits_per_hash,
        };
        let ghost old_white = self.white@;
        let ghost old_gray = self.gray@;
        if let Some(g) = find_addr(&self.gray, &a) {
            proof {
                lemma_remove_keeps(self.gray@, g as int);
            }
            self.gray.remove(g);
        }
        assert(!has_addr(self.gray@, a));
        match find_addr(&self.white, &a) {
            Some(w) => {
                self.white.set(w, entry);
                proof {
                    assert(self.white@[w as int] == entry);
                    assert forall|e: PeerEntry| #[trigger] self.white@.contains(e) && e.adr != a implies old_white.contains(e) by {
                        let k = choose|k: int| 0 <= k < self.white@.len() && self.white@[k] == e;
                        assert(old_white[k] == e);
                    }
                    assert forall|e: PeerEntry| #[trigger] old_white.contains(e) && e.adr != a implies self.white@.contains(e) by {
                        let k = choose|k: int| 0 <= k < old_white.len() && old_white[k] == e;
                        assert(self.white@[k] == e);
                    }
                    assert forall|x: ZoneAddr| has_addr(self.white@, x) implies has_addr(old_white, x) by {
                        let k = choose|k: int| 0 <= k < self.white@.len() && (#[trigger] self.white@[k]).adr == x;
                        assert(old_white[k].adr == x);
                    }
                }
            },
            None => {
                let ghost before_evict = self.white@;
                if self.white.len() >= self.white_capacity {
                    let k = self.random_index(self.white.len());
                    proof {
                        lemma_remove_keeps(self.white@, k as int);
                    }
                    self.white.remove(k);
                }
                let ghost mid = self.white@;
                self.white.push(entry);
                proof {
                    assert(self.white@[mid.len() as int] == entry);
                    assert forall|e: PeerEntry| #[trigger] self.white@.contains(e) && e.adr != a implies old_white.contains(e) by {
                        let k = choose|k: int| 0 <= k < self.white@.len() && self.white@[k] == e;
                        assert(mid.contains(e));
                    }
                    assert forall|e: PeerEntry| #[trigger] old_white.contains(e) && e.adr != a && old_white.len() < self.white_capacity implies self.white@.contains(e) by {
                        let k = choose|k: int| 0 <= k < old_white.len() && old_white[k] == e;
                        assert(self.white@[k] == e);
                    }
                    assert forall|x: ZoneAddr| has_addr(self.white@, x) && x != a implies has_addr(old_white, x) by {
                        let k = choose|k: int| 0 <= k < self.white@.len() && (#[trigger] self.white@[k]).adr == x;
                        assert(mid.contains(self.white@[k]));
                        let k2 = choose|k2: int| 0 <= k2 < mid.len() && mid[k2] == self.white@[k];
                        assert(old_white.contains(mid[k2]));
                    }
                }
            },
        }
        proof {
            assert forall|e: PeerEntry| #[trigger] self.gray@.contains(e) implies old_gray.contains(e) by {}
            assert forall|e: PeerEntry| #[trigger] old_gray.contains(e) && e.adr != a implies self.gray@.contains(e) by {}
            assert forall|x: ZoneAddr| has_addr(self.white@, x) implies !has_addr(self.gray@, x) by {
                if x != a {
                    assert(has_addr(old_white, x));
                    if has_addr(self.gray@, x) {
                        let k = choose|k: int| 0 <= k < self.gray@.len() && (#[trigger] self.gray@[k]).adr == x;
                        assert(old_gray.contains(self.gray@[k]));
                        let k2 = choose|k2: int| 0 <= k2 < old_gray.len() && old_gray[k2] == self.gray@[k];
                        assert(has_addr(old_gray, x));
                    }
                }
            }
        }
    }
}

} // verus!
