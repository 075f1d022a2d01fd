//! Connections to a client's port that wait for the client.

use crate::outside::{dash_entries, dash_insert, dash_new, dash_remove};
use crate::shared::PeerKey;
use dashmap::DashMap;
use std::collections::hash_map::RandomState;
use vstd::prelude::*;

verus! {

/// For how many seconds an incoming connection is kept for its client.
pub const CONNECTION_LIFETIME: u64 = 10;

/// Incoming connections that wait for the client to accept them, one for each key. A connection is
/// known by a number.
pub struct Connections {
    map: DashMap<[u8; 44], u64, RandomState>,
}

impl View for Connections {
    type V = Map<Seq<u8>, u64>;

    closed spec fn view(&self) -> Map<Seq<u8>, u64> {
        dash_entries(self.map)
    }
}

/// The connection that waits under a key.
pub open spec fn waiting(connections: Map<Seq<u8>, u64>, key: Seq<u8>) -> Option<u64> {
    if connections.contains_key(key) {
        Some(connections[key])
    } else {
        None
    }
}

impl Connections {
    /// No connections.
    pub fn new() -> (connections: Connections)
        ensures
            connections@ == Map::<Seq<u8>, u64>::empty(),
    {
        let connections = Connections { map: dash_new() };
        assert(connections@ =~= Map::<Seq<u8>, u64>::empty());
        connections
    }

    /// Lets a connection wait under a key, and gives back the one that it takes the place of.
    pub fn park(&mut self, key: &PeerKey, connection: u64) -> (replaced: Option<u64>)
        ensures
            final(self)@ == old(self)@.insert(key@, connection),
            replaced == waiting(old(self)@, key@),
    {
        dash_insert(&mut self.map, key.0, connection)
    }

    /// Takes out the connection that waits under a key.
    pub fn take(&mut self, key: &PeerKey) -> (taken: Option<u64>)
        ensures
            final(self)@ == old(self)@.remove(key@),
            taken == waiting(old(self)@, key@),
    {
        dash_remove(&mut self.map, &key.0)
    }
}

/// What waits under a key is what the key maps to, and nothing where it maps to nothing.
pub proof fn what_waits_is_what_was_parked(
    connections: Map<Seq<u8>, u64>,
    key: Seq<u8>,
    connection: u64,
)
    ensures
        waiting(connections, key) == Some(connection) <==> connections.contains_pair(
            key,
            connection,
        ),
        waiting(connections, key) is None <==> !connections.contains_key(key),
        waiting(connections.insert(key, connection), key) == Some(connection),
        waiting(connections.remove(key), key) is None,
        forall|other: Seq<u8>|
            other != key ==> #[trigger] waiting(connections, other) == waiting(
                connections.insert(key, connection),
                other,
            ) && waiting(connections, other) == waiting(connections.remove(key), other),
{
}

} // verus!
