//! The QUIC connections of the nodes that are online.
use crate::ids::NodeId;
use crate::maps::{self, ConnMap, conn_map, conn_map_get, conn_map_insert, conn_map_remove};
use vstd::prelude::*;

verus! {

/// The connection of each node that is online.
pub struct ConnRegistry {
    conns: ConnMap,
}

impl View for ConnRegistry {
    type V = Map<u128, quinn::Connection>;

    closed spec fn view(&self) -> Map<u128, quinn::Connection> {
        maps::conn_entries(self.conns)
    }
}

impl ConnRegistry {
    /// No node is online.
    pub fn new() -> (r: ConnRegistry)
        ensures
            r@ == Map::<u128, quinn::Connection>::empty(),
    {
        ConnRegistry { conns: conn_map() }
    }

    /// A node has come online. If it was online already, the new connection takes the place of
    /// the old one.
    pub fn register(&mut self, node_id: NodeId, conn: quinn::Connection)
        ensures
            final(self)@ == old(self)@.insert(node_id.value, conn),
    {
        conn_map_insert(&mut self.conns, node_id.value, conn);
    }

    /// A node has gone offline.
    pub fn unregister(&mut self, node_id: NodeId)
        ensures
            final(self)@ == old(self)@.remove(node_id.value),
    {
        conn_map_remove(&mut self.conns, node_id.value);
    }

    /// The connection of a node, if it is online.
    pub fn get(&self, node_id: NodeId) -> (r: Option<quinn::Connection>)
        ensures
            r == maps::entry(self@, node_id.value),
    {
        conn_map_get(&self.conns, node_id.value)
    }
}

} // verus!
