//! Which nodes can be told at once that their configuration has changed.
use crate::config::{ConfigManager, StoredRoute};
use crate::ids::NodeId;
use crate::maps::{
    self, NumberMap, number_map, number_map_get, number_map_insert, number_map_remove,
};
use crate::route::{self, Limits, RouteConfig, RouteError, ServerRoute};
use vstd::prelude::*;

verus! {

/// The channel to each node that is online, by the number of the channel.
pub struct ConfigSync {
    push: NumberMap,
}

impl View for ConfigSync {
    type V = Map<u128, u64>;

    closed spec fn view(&self) -> Map<u128, u64> {
        maps::number_entries(self.push)
    }
}

impl ConfigSync {
    /// No node is online.
    pub fn new() -> (r: ConfigSync)
        ensures
            r@ == Map::<u128, u64>::empty(),
    {
        ConfigSync { push: number_map() }
    }

    /// A node has come online, on the given channel.
    pub fn register(&mut self, node_id: NodeId, channel: u64)
        ensures
            final(self)@ == old(self)@.insert(node_id.value, channel),
    {
        number_map_insert(&mut self.push, node_id.value, channel);
    }

    /// A node has gone offline.
    pub fn unregister(&mut self, node_id: NodeId)
        ensures
            final(self)@ == old(self)@.remove(node_id.value),
    {
        number_map_remove(&mut self.push, node_id.value);
    }

    /// The channel on which a message for a node goes; none where the node is offline, and the
    /// message is dropped.
    pub fn push_message(&self, node_id: NodeId) -> (r: Option<u64>)
        ensures
            r == maps::entry(self@, node_id.value),
    {
        number_map_get(&self.push, node_id.value)
    }
}

/// A change of the configuration of a node, where `D` is a change of its routes.
#[derive(Debug)]
pub struct ConfigUpdate<D> {
    pub config_version: u64,
    pub routes: D,
    pub limits: Option<Limits>,
}

/// What a node is told once its routes have changed by `delta` and `version` is the version that
/// was stored, and the version that counts from then on.
pub fn routes_changed<D>(version: i64, delta: D) -> (r: (ConfigUpdate<D>, u64))
    ensures
        r.0 == (ConfigUpdate { config_version: version as u64, routes: delta, limits: None }),
        r.1 == version as u64,
{
    let v: u64 = version as u64;
    (ConfigUpdate { config_version: v, routes: delta, limits: None }, v)
}

/// The whole configuration of a node.
#[derive(Debug)]
pub struct ConfigSnapshotPayload {
    pub config_version: u64,
    pub routes: Vec<RouteConfig>,
}

/// The configuration `c` is the route `s` as an agent gets it.
pub open spec fn config_of(c: RouteConfig, s: ServerRoute) -> bool {
    c == (RouteConfig {
        id: s.id,
        name: s.name,
        route_type: s.route_type,
        enabled: s.enabled,
        target_host: s.target_host,
        target_port: s.target_port,
        hostname: s.hostname,
        limits: s.limits,
    })
}

/// The whole configuration of a node, from its stored routes. Where one of them is not a route,
/// there is none.
pub fn snapshot_payload(config_version: u64, rows: Vec<StoredRoute>) -> (r: Result<
    ConfigSnapshotPayload,
    RouteError,
>)
    ensures
        match r {
            Ok(p) => p.config_version == config_version && p.routes@.len() == rows@.len() && forall|
                i: int,
            |
                0 <= i < rows@.len() ==> (#[trigger] rows@[i]).row.fault(rows@[i].limits) is None
                    && exists|s: ServerRoute| #[trigger]
                    s.is_row(rows@[i].row, rows@[i].limits) && config_of(p.routes@[i], s),
            Err(e) => exists|i: int|
                0 <= i < rows@.len() && (#[trigger] rows@[i]).row.fault(rows@[i].limits) == Some(e)
                    && forall|j: int|
                    0 <= j < i ==> (#[trigger] rows@[j]).row.fault(rows@[j].limits) is None,
        },
{
    let loaded = match ConfigManager::load(rows) {
        Ok(v) => v,
        Err(e) => {
            return Err(e);
        },
    };
    let mut routes: Vec<RouteConfig> = Vec::new();
    let mut i: usize = 0;
    while i < loaded.len()
        invariant
            i <= loaded@.len(),
            routes@.len() == i,
            forall|k: int| 0 <= k < i ==> config_of(#[trigger] routes@[k], loaded@[k]),
        decreases loaded@.len() - i,
    {
        routes.push(loaded[i].to_route_config());
        i += 1;
    }
    assert forall|k: int| 0 <= k < rows@.len() implies (#[trigger] rows@[k]).row.fault(
        rows@[k].limits,
    ) is None && exists|s: ServerRoute| #[trigger]
        s.is_row(rows@[k].row, rows@[k].limits) && config_of(routes@[k], s) by {
        assert(loaded@[k].is_row(rows@[k].row, rows@[k].limits));
        assert(config_of(routes@[k], loaded@[k]));
    }
    Ok(ConfigSnapshotPayload { config_version, routes })
}

/// An agent gets a route with its id, its name, its type, whether it is enabled, its target, its
/// host name and its limits, as they are stored.
pub proof fn agent_gets_the_stored_route(
    c: RouteConfig,
    s: ServerRoute,
    row: route::RouteRow,
    limits: Option<Limits>,
)
    requires
        row.fault(limits) is None,
        s.is_row(row, limits),
        config_of(c, s),
    ensures
        crate::ids::id_of(row.id@) == Some(c.id.value as nat),
        c.name == row.name,
        c.enabled == row.enabled,
        c.target_host == row.target_host,
        c.target_port as int == row.target_port as int,
        c.hostname == row.hostname,
        row.route_type@ == "tcp"@ <==> c.route_type == route::RouteType::Tcp,
        row.route_type@ == "udp"@ <==> c.route_type == route::RouteType::Udp,
        row.route_type@ == "http"@ <==> c.route_type == route::RouteType::Http,
        row.route_type@ == "https"@ <==> c.route_type == route::RouteType::Https,
        row.limits matches Some(l) && l@.len() > 0 ==> c.limits == limits,
        row.limits is None ==> c.limits is None,
{
    route::loaded_route_is_its_row(s, row, limits);
}

} // verus!
