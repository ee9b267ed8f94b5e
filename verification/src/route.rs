//! Routes, and the tables that find them by listen address and by host name.
use crate::ids::{Id, NodeId, RouteId};
use crate::ids;
use crate::ip::{self, SocketAddr, parse_ip};
use crate::maps::{
    self, AddrKey, HostMap, RouteMap, host_map, host_map_clear, host_map_get, host_map_insert, host_map_len,
    host_map_remove, host_map_values, route_map, route_map_get, route_map_insert, route_map_len,
    route_map_remove, route_map_values,
};
use crate::text::{self, concat, debug_text, push_str, str_eq, to_ascii_lowercase};
use std::sync::Arc;
use vstd::prelude::*;

verus! {

/// What a route carries.
#[derive(Clone, Copy, PartialEq, Eq, Structural, Debug, Hash)]
pub enum RouteType {
    Tcp,
    Udp,
    Http,
    Https,
}

/// The limits of a route or a node.
#[derive(Clone, Copy, PartialEq, Eq, Structural, Debug, Hash)]
pub struct Limits {
    /// How many connections may be open at once; no limit where it is absent.
    pub max_connections: Option<u64>,
}

/// A route as the server sees it.
#[derive(Debug)]
pub struct ServerRoute {
    pub id: RouteId,
    pub name: String,
    pub route_type: RouteType,
    pub enabled: bool,
    pub node_id: NodeId,
    pub listen_host: String,
    pub listen_port: u16,
    pub target_host: String,
    pub target_port: u16,
    pub hostname: Option<String>,
    pub tls_mode: Option<String>,
    pub limits: Option<Limits>,
}

impl Clone for ServerRoute {
    fn clone(&self) -> (r: ServerRoute)
        ensures
            r == *self,
    {
        ServerRoute {
            id: self.id,
            name: self.name.clone(),
            route_type: self.route_type,
            enabled: self.enabled,
            node_id: self.node_id,
            listen_host: self.listen_host.clone(),
            listen_port: self.listen_port,
            target_host: self.target_host.clone(),
            target_port: self.target_port,
            hostname: self.hostname.clone(),
            tls_mode: self.tls_mode.clone(),
            limits: self.limits,
        }
    }
}

/// A route as an agent gets it: without the listener and the node.
#[derive(Debug)]
pub struct RouteConfig {
    pub id: RouteId,
    pub name: String,
    pub route_type: RouteType,
    pub enabled: bool,
    pub target_host: String,
    pub target_port: u16,
    pub hostname: Option<String>,
    pub limits: Option<Limits>,
}

/// A stored route.
#[derive(Debug)]
pub struct RouteRow {
    pub id: String,
    pub name: String,
    pub node_id: String,
    pub route_type: String,
    pub enabled: bool,
    pub listen_host: Option<String>,
    pub listen_port: Option<i64>,
    pub hostname: Option<String>,
    pub target_host: String,
    pub target_port: i64,
    pub tls_mode: Option<String>,
    pub limits: Option<String>,
}

/// Why a stored route is not a route.
#[derive(Debug)]
pub enum RouteError {
    UnknownType(String),
    NoListenPort,
    ListenPortOutOfRange,
    TargetPortOutOfRange,
    MalformedLimits,
    InvalidRouteId,
    InvalidNodeId,
}

impl RouteError {
    /// The error in words.
    pub fn message(&self) -> (s: String)
        ensures
            s@ == (match *self {
                RouteError::UnknownType(t) => "unknown route type "@ + text::quoted(t@),
                RouteError::NoListenPort => "route has no listen_port"@,
                RouteError::ListenPortOutOfRange => "listen_port out of range"@,
                RouteError::TargetPortOutOfRange => "target_port out of range"@,
                RouteError::MalformedLimits => "parse route limits"@,
                RouteError::InvalidRouteId => "invalid route id"@,
                RouteError::InvalidNodeId => "invalid node id"@,
            }),
    {
        match self {
            RouteError::UnknownType(t) => concat(
                "unknown route type ",
                debug_text(t.as_str()).as_str(),
            ),
            RouteError::NoListenPort => "route has no listen_port".to_owned(),
            RouteError::ListenPortOutOfRange => "listen_port out of range".to_owned(),
            RouteError::TargetPortOutOfRange => "target_port out of range".to_owned(),
            RouteError::MalformedLimits => "parse route limits".to_owned(),
            RouteError::InvalidRouteId => "invalid route id".to_owned(),
            RouteError::InvalidNodeId => "invalid node id".to_owned(),
        }
    }
}

/// The route type that a name stands for.
pub open spec fn route_type_of(s: Seq<char>) -> Option<RouteType> {
    if s == "tcp"@ {
        Some(RouteType::Tcp)
    } else if s == "udp"@ {
        Some(RouteType::Udp)
    } else if s == "http"@ {
        Some(RouteType::Http)
    } else if s == "https"@ {
        Some(RouteType::Https)
    } else {
        None
    }
}

/// The route type that a name stands for.
pub fn parse_route_type(s: &str) -> (r: Option<RouteType>)
    ensures
        r == route_type_of(s@),
{
    if str_eq(s, "tcp") {
        Some(RouteType::Tcp)
    } else if str_eq(s, "udp") {
        Some(RouteType::Udp)
    } else if str_eq(s, "http") {
        Some(RouteType::Http)
    } else if str_eq(s, "https") {
        Some(RouteType::Https)
    } else {
        None
    }
}

impl RouteType {
    /// A route that is found by host name, not by a listener of its own.
    pub open spec fn by_host(self) -> bool {
        self == RouteType::Http || self == RouteType::Https
    }

    /// Whether the route is found by host name.
    pub fn is_by_host(&self) -> (r: bool)
        ensures
            r == self.by_host(),
    {
        match self {
            RouteType::Http => true,
            RouteType::Https => true,
            _ => false,
        }
    }
}

/// The limits column holds text that has to be read.
pub open spec fn limits_present(limits: Option<String>) -> bool {
    limits matches Some(s) && s@.len() > 0
}

impl RouteRow {
    /// Why the row is not a route, where `limits` is what reading the text of its limits gave:
    /// the first fault in the order type, listen port, target port, limits, id, node id.
    pub open spec fn fault(self, limits: Option<Limits>) -> Option<RouteError> {
        let t = route_type_of(self.route_type@);
        if t is None {
            Some(RouteError::UnknownType(self.route_type))
        } else if !t->0.by_host() && self.listen_port is None {
            Some(RouteError::NoListenPort)
        } else if !t->0.by_host() && !(0 <= self.listen_port->0 <= 65535) {
            Some(RouteError::ListenPortOutOfRange)
        } else if !(0 <= self.target_port <= 65535) {
            Some(RouteError::TargetPortOutOfRange)
        } else if limits_present(self.limits) && limits is None {
            Some(RouteError::MalformedLimits)
        } else if ids::id_of(self.id@) is None {
            Some(RouteError::InvalidRouteId)
        } else if ids::id_of(self.node_id@) is None {
            Some(RouteError::InvalidNodeId)
        } else {
            None
        }
    }
}

impl ServerRoute {
    /// The row `row`, with its limits read as `limits`, is the route `self`.
    pub open spec fn is_row(self, row: RouteRow, limits: Option<Limits>) -> bool {
        &&& Some(self.id.value as nat) == ids::id_of(row.id@)
        &&& self.name == row.name
        &&& Some(self.route_type) == route_type_of(row.route_type@)
        &&& self.enabled == row.enabled
        &&& Some(self.node_id.value as nat) == ids::id_of(row.node_id@)
        &&& self.listen_host@ == (match row.listen_host {
            Some(h) => h@,
            None => "0.0.0.0"@,
        })
        &&& self.listen_port == (if self.route_type.by_host() {
            0
        } else {
            row.listen_port->0 as int
        })
        &&& self.target_host == row.target_host
        &&& self.target_port == row.target_port
        &&& self.hostname == row.hostname
        &&& self.tls_mode == row.tls_mode
        &&& self.limits == (if limits_present(row.limits) {
            limits
        } else {
            None
        })
    }

    /// Reads a route out of its row. `limits` is what reading the text of the row's limits gave.
    /// A route found by host name has no listener, so its listen port is 0.
    pub fn try_from(r: RouteRow, limits: Option<Limits>) -> (route: Result<ServerRoute, RouteError>)
        ensures
            match route {
                Ok(s) => r.fault(limits) is None && s.is_row(r, limits),
                Err(e) => r.fault(limits) == Some(e),
            },
    {
        let route_type = match parse_route_type(r.route_type.as_str()) {
            Some(t) => t,
            None => {
                return Err(RouteError::UnknownType(r.route_type));
            },
        };
        let listen_host = match r.listen_host {
            Some(h) => h,
            None => "0.0.0.0".to_owned(),
        };
        let listen_port: u16 = if route_type.is_by_host() {
            0
        } else {
            match r.listen_port {
                None => {
                    return Err(RouteError::NoListenPort);
                },
                Some(p) => {
                    if p < 0 || p > 65535 {
                        return Err(RouteError::ListenPortOutOfRange);
                    }
                    p as u16
                },
            }
        };
        if r.target_port < 0 || r.target_port > 65535 {
            return Err(RouteError::TargetPortOutOfRange);
        }
        let target_port: u16 = r.target_port as u16;
        let limits = match r.limits {
            Some(s) => if !s.as_str().is_empty() {
                match limits {
                    Some(l) => Some(l),
                    None => {
                        return Err(RouteError::MalformedLimits);
                    },
                }
            } else {
                None
            },
            None => None,
        };
        let id = match Id::parse_str(r.id.as_str()) {
            Some(id) => id,
            None => {
                return Err(RouteError::InvalidRouteId);
            },
        };
        let node_id = match Id::parse_str(r.node_id.as_str()) {
            Some(id) => id,
            None => {
                return Err(RouteError::InvalidNodeId);
            },
        };
        Ok(
            ServerRoute {
                id,
                name: r.name,
                route_type,
                enabled: r.enabled,
                node_id,
                listen_host,
                listen_port,
                target_host: r.target_host,
                target_port,
                hostname: r.hostname,
                tls_mode: r.tls_mode,
                limits,
            },
        )
    }

    /// The listen address, if the listen host is an IP address.
    pub open spec fn listen(self) -> Option<SocketAddr> {
        match ip::ip_of(self.listen_host@) {
            Some(ip) => Some(SocketAddr::at(ip, self.listen_port)),
            None => None,
        }
    }

    /// The listen address, or what is wrong with the listen host.
    pub fn listen_addr(&self) -> (r: Result<SocketAddr, String>)
        ensures
            match r {
                Ok(a) => self.listen() == Some(a),
                Err(m) => self.listen() is None && m@ == "invalid listen_host "@ + text::quoted(
                    self.listen_host@,
                ),
            },
    {
        match parse_ip(self.listen_host.as_str()) {
            Some(ip) => Ok(SocketAddr::new(ip, self.listen_port)),
            None => Err(
                concat("invalid listen_host ", debug_text(self.listen_host.as_str()).as_str()),
            ),
        }
    }

    /// The route as an agent gets it.
    pub fn to_route_config(&self) -> (r: RouteConfig)
        ensures
            r == (RouteConfig {
                id: self.id,
                name: self.name,
                route_type: self.route_type,
                enabled: self.enabled,
                target_host: self.target_host,
                target_port: self.target_port,
                hostname: self.hostname,
                limits: self.limits,
            }),
    {
        RouteConfig {
            id: self.id,
            name: self.name.clone(),
            route_type: self.route_type,
            enabled: self.enabled,
            target_host: self.target_host.clone(),
            target_port: self.target_port,
            hostname: self.hostname.clone(),
            limits: self.limits,
        }
    }

    /// The host name, in lower case, under which the route is found; none for a route with a
    /// listener of its own.
    pub open spec fn host(self) -> Option<Seq<char>> {
        if self.route_type.by_host() {
            match self.hostname {
                Some(h) => Some(text::ascii_lower(h@)),
                None => None,
            }
        } else {
            None
        }
    }

    /// The host name, in lower case, under which the route is found.
    pub fn host_key(&self) -> (r: Option<String>)
        ensures
            text::opt_view(r) == self.host(),
    {
        if self.route_type.is_by_host() {
            match &self.hostname {
                Some(h) => Some(to_ascii_lowercase(h.as_str())),
                None => None,
            }
        } else {
            None
        }
    }

    /// The route's TLS is passed through: routed by its server name, not decrypted.
    pub open spec fn passthrough(self) -> bool {
        self.route_type == RouteType::Https && (self.tls_mode matches Some(m) && m@
            == "passthrough"@)
    }

    /// Whether the route's TLS is passed through.
    pub fn tls_passthrough(&self) -> (r: bool)
        ensures
            r == self.passthrough(),
    {
        self.route_type == RouteType::Https && match &self.tls_mode {
            Some(m) => str_eq(m.as_str(), "passthrough"),
            None => false,
        }
    }
}

/// Why a route was not put into a route table.
#[derive(Debug)]
pub enum RouteTableError {
    InvalidListenAddr(String),
    DuplicateListen { addr: SocketAddr, existing: RouteId, incoming: RouteId },
}

impl RouteTableError {
    /// The error in words.
    pub fn message(&self) -> (s: String)
        ensures
            match *self {
                RouteTableError::InvalidListenAddr(m) => s@ == "invalid listen address: "@ + m@,
                RouteTableError::DuplicateListen { addr, existing, incoming } => exists|
                    a: Seq<char>,
                | #[trigger]
                    ip::is_socket_text(addr, a) && s@ == "duplicate listen "@ + a + ": routes "@
                        + ids::id_text(existing.value as nat) + " and "@ + ids::id_text(
                        incoming.value as nat,
                    ),
            },
    {
        match self {
            RouteTableError::InvalidListenAddr(m) => concat("invalid listen address: ", m.as_str()),
            RouteTableError::DuplicateListen { addr, existing, incoming } => {
                let a = addr.to_text();
                let mut s = concat("duplicate listen ", a.as_str());
                push_str(&mut s, ": routes ");
                push_str(&mut s, existing.to_text().as_str());
                push_str(&mut s, " and ");
                push_str(&mut s, incoming.to_text().as_str());
                s
            },
        }
    }
}

/// The key of an address.
pub open spec fn addr_key(a: SocketAddr) -> AddrKey {
    match a {
        SocketAddr::V4 { ip, port } => (false, ip as u128, port, 0, 0),
        SocketAddr::V6 { ip, port, flowinfo, scope_id } => (true, ip, port, flowinfo, scope_id),
    }
}

pub(crate) fn key_of(a: &SocketAddr) -> (k: AddrKey)
    ensures
        k == addr_key(*a),
{
    match *a {
        SocketAddr::V4 { ip, port } => (false, ip as u128, port, 0, 0),
        SocketAddr::V6 { ip, port, flowinfo, scope_id } => (true, ip, port, flowinfo, scope_id),
    }
}

/// Different addresses have different keys.
pub proof fn addr_key_is_injective(a: SocketAddr, b: SocketAddr)
    requires
        addr_key(a) == addr_key(b),
    ensures
        a == b,
{
}

/// The routes with a listener, by their listen address.
pub struct RouteTable {
    by_listen: RouteMap,
}

impl View for RouteTable {
    type V = Map<AddrKey, Arc<ServerRoute>>;

    closed spec fn view(&self) -> Map<AddrKey, Arc<ServerRoute>> {
        maps::route_entries(self.by_listen)
    }
}

impl RouteTable {
    /// Every route of the table stands under its own listen address.
    pub open spec fn wf(self) -> bool {
        forall|k: AddrKey| #[trigger]
            self@.dom().contains(k) ==> (self@[k].listen() matches Some(a) && addr_key(a) == k)
    }

    /// An empty table.
    pub fn new() -> (r: RouteTable)
        ensures
            r@ == Map::<AddrKey, Arc<ServerRoute>>::empty(),
            r@.dom().finite(),
            r.wf(),
    {
        RouteTable { by_listen: route_map() }
    }

    /// Adds a route under its listen address, unless another route stands there.
    pub fn insert(&mut self, route: ServerRoute) -> (r: Result<(), RouteTableError>)
        ensures
            old(self).wf() ==> final(self).wf(),
            old(self)@.dom().finite() ==> final(self)@.dom().finite(),
            match route.listen() {
                None => final(self)@ == old(self)@ && (r matches Err(
                    RouteTableError::InvalidListenAddr(m),
                ) && m@ == "invalid listen_host "@ + text::quoted(route.listen_host@)),
                Some(a) => match maps::entry(old(self)@, addr_key(a)) {
                    Some(e) => final(self)@ == old(self)@ && r == Err::<(), RouteTableError>(
                        RouteTableError::DuplicateListen {
                            addr: a,
                            existing: e.id,
                            incoming: route.id,
                        },
                    ),
                    None => r is Ok && final(self)@ == old(self)@.insert(
                        addr_key(a),
                        Arc::new(route),
                    ),
                },
            },
    {
        let addr = match route.listen_addr() {
            Ok(a) => a,
            Err(m) => {
                return Err(RouteTableError::InvalidListenAddr(m));
            },
        };
        let key = key_of(&addr);
        if let Some(existing) = route_map_get(&self.by_listen, key) {
            return Err(
                RouteTableError::DuplicateListen { addr, existing: existing.id, incoming: route.id },
            );
        }
        route_map_insert(&mut self.by_listen, key, Arc::new(route));
        Ok(())
    }

    /// The route at a listen address.
    pub fn lookup(&self, addr: &SocketAddr) -> (r: Option<Arc<ServerRoute>>)
        ensures
            r == maps::entry(self@, addr_key(*addr)),
    {
        route_map_get(&self.by_listen, key_of(addr))
    }

    /// Takes the route at a listen address out of the table.
    pub fn remove(&mut self, addr: &SocketAddr) -> (r: Option<Arc<ServerRoute>>)
        ensures
            r == maps::entry(old(self)@, addr_key(*addr)),
            final(self)@ == old(self)@.remove(addr_key(*addr)),
            old(self).wf() ==> final(self).wf(),
            old(self)@.dom().finite() ==> final(self)@.dom().finite(),
    {
        route_map_remove(&mut self.by_listen, key_of(addr))
    }

    /// Every route of the table, in no particular order.
    pub fn routes(&self) -> (r: Vec<Arc<ServerRoute>>)
        ensures
            maps::lists_values(self@, r@),
    {
        route_map_values(&self.by_listen)
    }

    /// How many routes the table holds.
    pub fn len(&self) -> (n: usize)
        ensures
            n == self@.len(),
    {
        route_map_len(&self.by_listen)
    }

    /// Whether the table holds no route.
    pub fn is_empty(&self) -> (r: bool)
        ensures
            r == (self@.len() == 0),
    {
        route_map_len(&self.by_listen) == 0
    }
}

/// Why a route was not put into a host table.
#[derive(Debug)]
pub enum HostTableError {
    DuplicateHostname { host: String, existing: RouteId, incoming: RouteId },
}

impl HostTableError {
    /// The error in words.
    pub fn message(&self) -> (s: String)
        ensures
            match *self {
                HostTableError::DuplicateHostname { host, existing, incoming } => s@
                    == "duplicate hostname "@ + host@ + ": routes "@ + ids::id_text(
                    existing.value as nat,
                ) + " and "@ + ids::id_text(incoming.value as nat),
            },
    {
        match self {
            HostTableError::DuplicateHostname { host, existing, incoming } => {
                let mut s = concat("duplicate hostname ", host.as_str());
                push_str(&mut s, ": routes ");
                push_str(&mut s, existing.to_text().as_str());
                push_str(&mut s, " and ");
                push_str(&mut s, incoming.to_text().as_str());
                s
            },
        }
    }
}

/// The HTTP and HTTPS routes, by their host name in lower case.
pub struct HostTable {
    by_host: HostMap,
}

impl View for HostTable {
    type V = Map<Seq<char>, Arc<ServerRoute>>;

    closed spec fn view(&self) -> Map<Seq<char>, Arc<ServerRoute>> {
        maps::host_entries(self.by_host)
    }
}

/// The host table of the first `n` routes: the enabled ones with a host name, a later one in the
/// place of an earlier one of the same name.
pub open spec fn table_of(routes: Seq<ServerRoute>, n: int) -> Map<Seq<char>, Arc<ServerRoute>>
    decreases n,
{
    if n <= 0 {
        Map::empty()
    } else {
        let r = routes[n - 1];
        if r.enabled && r.host() is Some {
            table_of(routes, n - 1).insert(r.host()->0, Arc::new(r))
        } else {
            table_of(routes, n - 1)
        }
    }
}

impl HostTable {
    /// Every route of the table stands under its own host name.
    pub open spec fn wf(self) -> bool {
        forall|k: Seq<char>| #[trigger]
            self@.dom().contains(k) ==> self@[k].host() == Some(k)
    }

    /// An empty table.
    pub fn new() -> (r: HostTable)
        ensures
            r@ == Map::<Seq<char>, Arc<ServerRoute>>::empty(),
            r@.dom().finite(),
            r.wf(),
    {
        HostTable { by_host: host_map() }
    }

    /// Adds a route under its host name, unless another route stands there. A route without a
    /// host name is passed over.
    pub fn insert(&mut self, route: ServerRoute) -> (r: Result<(), HostTableError>)
        ensures
            old(self).wf() ==> final(self).wf(),
            old(self)@.dom().finite() ==> final(self)@.dom().finite(),
            match route.host() {
                None => r is Ok && final(self)@ == old(self)@,
                Some(h) => match maps::entry(old(self)@, h) {
                    Some(e) => final(self)@ == old(self)@ && (r matches Err(
                        HostTableError::DuplicateHostname { host, existing, incoming },
                    ) && host@ == h && existing == e.id && incoming == route.id),
                    None => r is Ok && final(self)@ == old(self)@.insert(h, Arc::new(route)),
                },
            },
    {
        let host = match route.host_key() {
            Some(h) => h,
            None => {
                return Ok(());
            },
        };
        if let Some(existing) = host_map_get(&self.by_host, host.as_str()) {
            return Err(
                HostTableError::DuplicateHostname {
                    host,
                    existing: existing.id,
                    incoming: route.id,
                },
            );
        }
        host_map_insert(&mut self.by_host, host, Arc::new(route));
        Ok(())
    }

    /// The route of a host name, in any case.
    pub fn lookup(&self, host: &str) -> (r: Option<Arc<ServerRoute>>)
        ensures
            r == maps::entry(self@, text::ascii_lower(host@)),
    {
        host_map_get(&self.by_host, to_ascii_lowercase(host).as_str())
    }

    /// Takes the route of a host name, in any case, out of the table.
    pub fn remove(&mut self, host: &str) -> (r: Option<Arc<ServerRoute>>)
        ensures
            r == maps::entry(old(self)@, text::ascii_lower(host@)),
            final(self)@ == old(self)@.remove(text::ascii_lower(host@)),
            old(self).wf() ==> final(self).wf(),
            old(self)@.dom().finite() ==> final(self)@.dom().finite(),
    {
        host_map_remove(&mut self.by_host, to_ascii_lowercase(host).as_str())
    }

    /// Builds the table anew from all routes: the enabled ones with a host name.
    pub fn reconcile(&mut self, routes: &Vec<ServerRoute>)
        ensures
            final(self)@ == table_of(routes@, routes@.len() as int),
            final(self)@.dom().finite(),
            final(self).wf(),
    {
        host_map_clear(&mut self.by_host);
        let mut i: usize = 0;
        while i < routes.len()
            invariant
                i <= routes@.len(),
                self@ == table_of(routes@, i as int),
                self@.dom().finite(),
                self.wf(),
            decreases routes@.len() - i,
        {
            let route = &routes[i];
            if route.enabled {
                if let Some(host) = route.host_key() {
                    host_map_insert(&mut self.by_host, host, Arc::new(route.clone()));
                }
            }
            i += 1;
        }
    }

    /// Every route of the table, in no particular order.
    pub fn routes(&self) -> (r: Vec<Arc<ServerRoute>>)
        ensures
            maps::lists_values(self@, r@),
    {
        host_map_values(&self.by_host)
    }

    /// How many routes the table holds.
    pub fn len(&self) -> (n: usize)
        ensures
            n == self@.len(),
    {
        host_map_len(&self.by_host)
    }

    /// Whether the table holds no route.
    pub fn is_empty(&self) -> (r: bool)
        ensures
            r == (self@.len() == 0),
    {
        host_map_len(&self.by_host) == 0
    }
}

/// A host table answers the same whatever the case of the letters in which a name is asked for.
pub proof fn lookup_ignores_case(
    table: Map<Seq<char>, Arc<ServerRoute>>,
    asked: Seq<char>,
    other: Seq<char>,
)
    requires
        text::same_ignoring_case(asked, other),
    ensures
        maps::entry(table, text::ascii_lower(asked)) == maps::entry(
            table,
            text::ascii_lower(other),
        ),
{
}

/// The route at `i` is enabled and has the host name `host`.
pub open spec fn serves(routes: Seq<ServerRoute>, i: int, host: Seq<char>) -> bool {
    routes[i].enabled && routes[i].host() == Some(host)
}

/// A host table built from routes finds under a host name the last of the enabled routes that
/// have it.
pub proof fn rebuilt_table_holds_the_enabled(
    routes: Seq<ServerRoute>,
    n: int,
    i: int,
    host: Seq<char>,
)
    requires
        0 <= i < n <= routes.len(),
        serves(routes, i, host),
        forall|j: int| i < j < n ==> !#[trigger] serves(routes, j, host),
    ensures
        maps::entry(table_of(routes, n), host) == Some(Arc::new(routes[i])),
    decreases n,
{
    if i < n - 1 {
        rebuilt_table_holds_the_enabled(routes, n - 1, i, host);
        assert(!serves(routes, n - 1, host));
    }
}

/// A host table built from routes holds no host name that no enabled route has.
pub proof fn rebuilt_table_holds_no_more(routes: Seq<ServerRoute>, n: int, host: Seq<char>)
    requires
        0 <= n <= routes.len(),
        forall|j: int| 0 <= j < n ==> !#[trigger] serves(routes, j, host),
    ensures
        maps::entry(table_of(routes, n), host) is None,
    decreases n,
{
    if n > 0 {
        rebuilt_table_holds_no_more(routes, n - 1, host);
        assert(!serves(routes, n - 1, host));
    }
}

/// A route that is loaded from a row is the one that the row describes: each column of the row is
/// found in it again. One without a listen host listens on every address.
pub proof fn loaded_route_is_its_row(s: ServerRoute, row: RouteRow, limits: Option<Limits>)
    requires
        row.fault(limits) is None,
        s.is_row(row, limits),
    ensures
        ids::id_of(row.id@) == Some(s.id.value as nat),
        ids::id_of(row.node_id@) == Some(s.node_id.value as nat),
        s.name == row.name,
        s.enabled == row.enabled,
        s.hostname == row.hostname,
        s.target_host == row.target_host,
        s.target_port as int == row.target_port as int,
        s.tls_mode == row.tls_mode,
        row.listen_host matches Some(h) ==> s.listen_host@ == h@,
        row.listen_host is None ==> s.listen_host@ == "0.0.0.0"@,
        row.route_type@ == "tcp"@ <==> s.route_type == RouteType::Tcp,
        row.route_type@ == "udp"@ <==> s.route_type == RouteType::Udp,
        row.route_type@ == "http"@ <==> s.route_type == RouteType::Http,
        row.route_type@ == "https"@ <==> s.route_type == RouteType::Https,
        s.route_type == RouteType::Tcp || s.route_type == RouteType::Udp ==> row.listen_port
            is Some && s.listen_port as int == row.listen_port->0 as int,
        s.route_type == RouteType::Http || s.route_type == RouteType::Https ==> s.listen_port == 0,
        row.limits matches Some(l) && l@.len() > 0 ==> limits is Some && s.limits == limits,
        !(row.limits is Some && row.limits->0@.len() > 0) ==> s.limits is None,
{
    route_type_names_differ();
}

proof fn route_type_names_differ()
    ensures
        "tcp"@ != "udp"@,
        "tcp"@ != "http"@,
        "tcp"@ != "https"@,
        "udp"@ != "http"@,
        "udp"@ != "https"@,
        "http"@ != "https"@,
{
    reveal_strlit("tcp");
    reveal_strlit("udp");
    reveal_strlit("http");
    reveal_strlit("https");
    assert("tcp"@[0] != "udp"@[0]);
    assert("tcp"@.len() == 3 && "udp"@.len() == 3 && "http"@.len() == 4 && "https"@.len() == 5);
}

/// A route that is loaded from a row passes TLS through exactly where the row's type is `https`
/// and its TLS mode is `passthrough`.
pub proof fn row_decides_about_passthrough(s: ServerRoute, row: RouteRow, limits: Option<Limits>)
    requires
        row.fault(limits) is None,
        s.is_row(row, limits),
    ensures
        s.passthrough() <==> row.route_type@ == "https"@ && row.tls_mode is Some
            && row.tls_mode->0@ == "passthrough"@,
{
    route_type_names_differ();
}

/// A row is a route exactly where its type is known, its ports are ports, its limits could be read
/// and its ids are ids. A route that is found by host name needs no listen port.
pub proof fn rows_that_are_routes(row: RouteRow, limits: Option<Limits>)
    ensures
        row.fault(limits) is None <==> {
            &&& row.route_type@ == "http"@ || row.route_type@ == "https"@ || ((row.route_type@
                == "tcp"@ || row.route_type@ == "udp"@) && row.listen_port is Some && 0
                <= row.listen_port->0 < 0x1_0000)
            &&& 0 <= row.target_port < 0x1_0000
            &&& row.limits matches Some(l) ==> l@.len() == 0 || limits is Some
            &&& ids::id_of(row.id@) is Some
            &&& ids::id_of(row.node_id@) is Some
        },
        row.fault(limits) matches Some(RouteError::UnknownType(t)) ==> t == row.route_type
            && row.route_type@ != "tcp"@ && row.route_type@ != "udp"@ && row.route_type@ != "http"@
            && row.route_type@ != "https"@,
        row.fault(limits) is Some && row.fault(limits)->0 is NoListenPort ==> row.listen_port
            is None,
        row.fault(limits) is Some && row.fault(limits)->0 is ListenPortOutOfRange
            ==> row.listen_port is Some && !(0 <= row.listen_port->0 < 0x1_0000),
        row.fault(limits) is Some && row.fault(limits)->0 is TargetPortOutOfRange ==> !(0
            <= row.target_port < 0x1_0000),
        row.fault(limits) is Some && row.fault(limits)->0 is MalformedLimits ==> limits is None
            && row.limits is Some,
        row.fault(limits) is Some && row.fault(limits)->0 is InvalidRouteId ==> ids::id_of(row.id@)
            is None,
        row.fault(limits) is Some && row.fault(limits)->0 is InvalidNodeId ==> ids::id_of(
            row.node_id@,
        ) is None,
{
    route_type_names_differ();
}

/// A route listens at the address that its listen host names, on its listen port, and nowhere
/// where the host names none.
pub proof fn route_listens_where_it_says(s: ServerRoute)
    ensures
        s.listen() is Some <==> ip::ip_of(s.listen_host@) is Some,
        s.listen() matches Some(a) ==> a.port() == s.listen_port && ip::ip_of(s.listen_host@)
            == Some(a.ip()),
        s.listen() matches Some(SocketAddr::V6 { flowinfo, scope_id, .. }) ==> flowinfo == 0
            && scope_id == 0,
{
}

/// HTTP and HTTPS routes are found by their host name, in any case of its letters; TCP and UDP
/// routes are not, though they have one.
pub proof fn route_is_found_by_its_host_name(s: ServerRoute)
    ensures
        s.host() is Some <==> (s.route_type == RouteType::Http || s.route_type == RouteType::Https)
            && s.hostname is Some,
        s.host() matches Some(h) ==> text::same_ignoring_case(h, s.hostname->0@) && h
            == text::ascii_lower(s.hostname->0@),
{
    if let Some(h) = s.hostname {
        let low = text::ascii_lower(h@);
        assert forall|i: int| 0 <= i < low.len() implies text::ascii_lower(low)[i] == low[i] by {
            text::lower_case_moves_letters_only(h@, i);
            text::lower_case_moves_letters_only(low, i);
        }
        assert(text::ascii_lower(low) =~= low);
    }
}

} // verus!
