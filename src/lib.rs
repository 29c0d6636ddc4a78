//! Peer management for a blockchain node: pruning seeds, zone-scoped peer
//! lists, the address book and sync-state services of one network zone, and
//! chain-height queries over the block tables.
use vstd::prelude::*;

pub mod pruning;
pub mod peer;
pub mod address_book;
pub mod sync_state;
pub mod blockchain;
pub mod services;

verus! {

} // verus!
