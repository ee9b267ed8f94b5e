//! The configuration in force: loaded, checked, put in place as a whole, and announced.
use crate::channel::{
    self, SignalReceiver, SignalSender, signal_channel, signal_send, signal_subscribe,
    signal_try_recv,
};
use crate::ip::{self, SocketAddr};
use crate::route::{Limits, RouteError, RouteRow, RouteType, ServerRoute};
use crate::text::{self, concat, push_str};
use std::sync::Arc;
use vstd::hash_set::StringHashSet;
use vstd::prelude::*;

verus! {

/// A configuration that does not change any more.
#[derive(Debug)]
pub struct ConfigSnapshot {
    pub routes: Vec<ServerRoute>,
}

/// A stored route with what reading the text of its limits gave.
#[derive(Debug)]
pub struct StoredRoute {
    pub row: RouteRow,
    pub limits: Option<Limits>,
}

/// Why routes do not make a configuration.
#[derive(Debug)]
pub enum ConfigError {
    NoHostname { route: String },
    DuplicateHostname { host: String, route: String },
    InvalidListen { route: String },
    DuplicateListen { addr: SocketAddr, route: String },
}

impl ConfigError {
    /// The error in words.
    pub fn message(&self) -> (s: String)
        ensures
            match *self {
                ConfigError::NoHostname { route } => s@ == "route "@ + route@ + " has no hostname"@,
                ConfigError::DuplicateHostname { host, route } => s@ == "duplicate hostname "@
                    + host@ + " (route "@ + route@ + ")"@,
                ConfigError::InvalidListen { route } => s@ == "route "@ + route@
                    + " has invalid listen address"@,
                ConfigError::DuplicateListen { addr, route } => exists|a: Seq<char>| #[trigger]
                    ip::is_socket_text(addr, a) && s@ == "duplicate listen address "@ + a
                        + " (route "@ + route@ + ")"@,
            },
    {
        match self {
            ConfigError::NoHostname { route } => {
                let mut s = concat("route ", route.as_str());
                push_str(&mut s, " has no hostname");
                s
            },
            ConfigError::DuplicateHostname { host, route } => {
                let mut s = concat("duplicate hostname ", host.as_str());
                push_str(&mut s, " (route ");
                push_str(&mut s, route.as_str());
                push_str(&mut s, ")");
                s
            },
            ConfigError::InvalidListen { route } => {
                let mut s = concat("route ", route.as_str());
                push_str(&mut s, " has invalid listen address");
                s
            },
            ConfigError::DuplicateListen { addr, route } => {
                let a = addr.to_text();
                let mut s = concat("duplicate listen address ", a.as_str());
                push_str(&mut s, " (route ");
                push_str(&mut s, route.as_str());
                push_str(&mut s, ")");
                s
            },
        }
    }
}

/// Why stored routes were not put in place.
#[derive(Debug)]
pub enum ReloadError {
    /// A stored route is not a route.
    Route(RouteError),
    /// The routes do not make a configuration.
    Config(ConfigError),
}

/// A route can be found: by its host name, or by its listen address.
pub open spec fn reachable(r: ServerRoute) -> bool {
    if r.route_type.by_host() {
        r.host() is Some
    } else {
        r.listen() is Some
    }
}

/// Two routes are found in the same place.
pub open spec fn clash(a: ServerRoute, b: ServerRoute) -> bool {
    if a.route_type.by_host() {
        b.route_type.by_host() && a.host() == b.host()
    } else {
        !b.route_type.by_host() && a.listen() == b.listen()
    }
}

/// Every route can be found, and no two in the same place.
pub open spec fn valid(routes: Seq<ServerRoute>) -> bool {
    &&& forall|i: int| 0 <= i < routes.len() ==> reachable(#[trigger] routes[i])
    &&& forall|i: int, j: int|
        0 <= i < j < routes.len() ==> !clash(#[trigger] routes[i], #[trigger] routes[j])
}

/// The route at `i` has the fault `e`: it cannot be found, or one before it stands in its place.
pub open spec fn fault_at(routes: Seq<ServerRoute>, i: int, e: ConfigError) -> bool {
    let r = routes[i];
    match e {
        ConfigError::NoHostname { route } => r.route_type.by_host() && r.host() is None && route
            == r.name,
        ConfigError::InvalidListen { route } => !r.route_type.by_host() && r.listen() is None
            && route == r.name,
        ConfigError::DuplicateHostname { host, route } => r.route_type.by_host() && r.host() == Some(
            host@,
        ) && route == r.name && exists|j: int| 0 <= j < i && clash(#[trigger] routes[j], r),
        ConfigError::DuplicateListen { addr, route } => !r.route_type.by_host() && r.listen()
            == Some(addr) && route == r.name && exists|j: int|
            0 <= j < i && clash(#[trigger] routes[j], r),
    }
}

/// The error of a refused configuration is that of the first route with a fault.
pub open spec fn refused(routes: Seq<ServerRoute>, e: ConfigError) -> bool {
    exists|i: int|
        0 <= i < routes.len() && valid(routes.subrange(0, i)) && #[trigger] fault_at(routes, i, e)
}

fn contains_addr(seen: &Vec<SocketAddr>, a: &SocketAddr) -> (r: bool)
    ensures
        r == seen@.contains(*a),
{
    let mut i: usize = 0;
    while i < seen.len()
        invariant
            i <= seen@.len(),
            forall|j: int| 0 <= j < i ==> seen@[j] != *a,
        decreases seen@.len() - i,
    {
        if seen[i] == *a {
            return true;
        }
        i += 1;
    }
    false
}

/// `seen` are the host names of the first `n` routes.
spec fn hosts_seen(routes: Seq<ServerRoute>, n: int, seen: Set<Seq<char>>) -> bool {
    forall|h: Seq<char>| #[trigger]
        seen.contains(h) <==> exists|j: int|
            0 <= j < n && #[trigger] routes[j].route_type.by_host() && routes[j].host() == Some(h)
}

/// `seen` are the listen addresses of the first `n` routes.
spec fn listens_seen(routes: Seq<ServerRoute>, n: int, seen: Seq<SocketAddr>) -> bool {
    forall|a: SocketAddr| #[trigger]
        seen.contains(a) <==> exists|j: int|
            0 <= j < n && !(#[trigger] routes[j].route_type.by_host()) && routes[j].listen() == Some(
                a,
            )
}

/// The route at `i` clashes with none before it.
spec fn fits(routes: Seq<ServerRoute>, i: int) -> bool {
    reachable(routes[i]) && forall|j: int| 0 <= j < i ==> !clash(#[trigger] routes[j], routes[i])
}

proof fn valid_extends(routes: Seq<ServerRoute>, i: int)
    requires
        0 <= i < routes.len(),
        valid(routes.subrange(0, i)),
        fits(routes, i),
    ensures
        valid(routes.subrange(0, i + 1)),
{
    let before = routes.subrange(0, i);
    let after = routes.subrange(0, i + 1);
    assert forall|k: int| 0 <= k < after.len() implies reachable(#[trigger] after[k]) by {
        if k < i {
            assert(after[k] == before[k]);
        }
    }
    assert forall|k: int, j: int| 0 <= k < j < after.len() implies !clash(
        #[trigger] after[k],
        #[trigger] after[j],
    ) by {
        assert(after[k] == routes[k] && after[j] == routes[j]);
        if j < i {
            assert(before[k] == routes[k] && before[j] == routes[j]);
        }
    }
}

proof fn faulty_is_invalid(routes: Seq<ServerRoute>, i: int, e: ConfigError)
    requires
        0 <= i < routes.len(),
        fault_at(routes, i, e),
    ensures
        !valid(routes),
{
    if valid(routes) {
        assert(reachable(routes[i]));
    }
}

fn check_host(routes: &Vec<ServerRoute>, i: usize, seen: &mut StringHashSet) -> (r: Result<
    (),
    ConfigError,
>)
    requires
        i < routes@.len(),
        routes@[i as int].route_type.by_host(),
        hosts_seen(routes@, i as int, old(seen)@),
    ensures
        match r {
            Ok(_) => fits(routes@, i as int) && hosts_seen(routes@, i + 1, final(seen)@),
            Err(e) => fault_at(routes@, i as int, e),
        },
{
    let route = &routes[i];
    let host = match route.host_key() {
        None => {
            return Err(ConfigError::NoHostname { route: route.name.clone() });
        },
        Some(host) => host,
    };
    let fresh = seen.insert(host.clone());
    if !fresh {
        assert(old(seen)@.contains(host@));
        let e = ConfigError::DuplicateHostname { host, route: route.name.clone() };
        proof {
            let j = choose|j: int|
                0 <= j < i && #[trigger] routes@[j].route_type.by_host() && routes@[j].host()
                    == Some(host@);
            assert(clash(routes@[j], routes@[i as int]));
        }
        return Err(e);
    }
    assert forall|j: int| 0 <= j < i implies !clash(#[trigger] routes@[j], routes@[i as int]) by {
        if clash(routes@[j], routes@[i as int]) {
            assert(routes@[j].route_type.by_host());
            assert(old(seen)@.contains(host@));
        }
    }
    assert forall|h: Seq<char>| #[trigger]
        seen@.contains(h) <==> exists|j: int|
            0 <= j < i + 1 && #[trigger] routes@[j].route_type.by_host() && routes@[j].host()
                == Some(h) by {
        if seen@.contains(h) && h != host@ {
            assert(old(seen)@.contains(h));
        }
        if h == host@ {
            assert(routes@[i as int].route_type.by_host());
        }
        if exists|j: int|
            0 <= j < i + 1 && #[trigger] routes@[j].route_type.by_host() && routes@[j].host()
                == Some(h) {
            let j = choose|j: int|
                0 <= j < i + 1 && #[trigger] routes@[j].route_type.by_host() && routes@[j].host()
                    == Some(h);
            if j < i {
                assert(old(seen)@.contains(h));
            }
        }
    }
    Ok(())
}

proof fn listens_seen_extends(
    routes: Seq<ServerRoute>,
    i: int,
    was: Seq<SocketAddr>,
    addr: SocketAddr,
)
    requires
        0 <= i < routes.len(),
        listens_seen(routes, i, was),
        !routes[i].route_type.by_host(),
        routes[i].listen() == Some(addr),
    ensures
        listens_seen(routes, i + 1, was.push(addr)),
{
    let seen = was.push(addr);
    assert forall|a: SocketAddr| #[trigger]
        seen.contains(a) <==> exists|j: int|
            0 <= j < i + 1 && !(#[trigger] routes[j].route_type.by_host()) && routes[j].listen()
                == Some(a) by {
        if seen.contains(a) {
            let k = choose|k: int| 0 <= k < seen.len() && seen[k] == a;
            if k < was.len() {
                assert(was[k] == a);
                assert(was.contains(a));
            } else {
                assert(!routes[i].route_type.by_host());
            }
        }
        if exists|j: int|
            0 <= j < i + 1 && !(#[trigger] routes[j].route_type.by_host()) && routes[j].listen()
                == Some(a) {
            let j = choose|j: int|
                0 <= j < i + 1 && !(#[trigger] routes[j].route_type.by_host())
                    && routes[j].listen() == Some(a);
            if j < i {
                assert(was.contains(a));
                let k = choose|k: int| 0 <= k < was.len() && was[k] == a;
                assert(seen[k] == a);
            } else {
                assert(seen[was.len() as int] == a);
            }
        }
    }
}

fn check_listen(routes: &Vec<ServerRoute>, i: usize, seen: &mut Vec<SocketAddr>) -> (r: Result<
    (),
    ConfigError,
>)
    requires
        i < routes@.len(),
        !routes@[i as int].route_type.by_host(),
        listens_seen(routes@, i as int, old(seen)@),
    ensures
        match r {
            Ok(_) => fits(routes@, i as int) && listens_seen(routes@, i + 1, final(seen)@),
            Err(e) => fault_at(routes@, i as int, e),
        },
{
    let route = &routes[i];
    let addr = match route.listen_addr() {
        Err(_) => {
            return Err(ConfigError::InvalidListen { route: route.name.clone() });
        },
        Ok(addr) => addr,
    };
    if contains_addr(seen, &addr) {
        let e = ConfigError::DuplicateListen { addr, route: route.name.clone() };
        proof {
            let j = choose|j: int|
                0 <= j < i && !(#[trigger] routes@[j].route_type.by_host()) && routes@[j].listen()
                    == Some(addr);
            assert(clash(routes@[j], routes@[i as int]));
        }
        return Err(e);
    }
    assert forall|j: int| 0 <= j < i implies !clash(#[trigger] routes@[j], routes@[i as int]) by {
        if clash(routes@[j], routes@[i as int]) {
            assert(!routes@[j].route_type.by_host());
            assert(old(seen)@.contains(addr));
        }
    }
    proof {
        listens_seen_extends(routes@, i as int, seen@, addr);
    }
    seen.push(addr);
    Ok(())
}

/// The configuration in force, in the lock-free cell of the `arc_swap` crate.
#[verifier::external_body]
pub struct ConfigCell {
    inner: arc_swap::ArcSwap<ConfigSnapshot>,
}

/// The configuration that the cell holds.
pub uninterp spec fn config_in(c: ConfigCell) -> ConfigSnapshot;

/// `ArcSwap::new`: a cell with the given value.
#[verifier::external_body]
fn config_cell(v: Arc<ConfigSnapshot>) -> (c: ConfigCell)
    ensures
        config_in(c) == *v,
{
    ConfigCell { inner: arc_swap::ArcSwap::new(v) }
}

/// `ArcSwap::load_full`: the value that the cell holds.
#[verifier::external_body]
fn config_cell_load(c: &ConfigCell) -> (v: Arc<ConfigSnapshot>)
    ensures
        *v == config_in(*c),
{
    c.inner.load_full()
}

/// `ArcSwap::store`: the cell holds the given value instead of the old one.
#[verifier::external_body]
fn config_cell_store(c: &mut ConfigCell, v: Arc<ConfigSnapshot>)
    ensures
        config_in(*final(c)) == *v,
{
    c.inner.store(v);
}

/// Holds the configuration in force, and tells those who watch it when another one takes its
/// place.
pub struct ConfigManager {
    snapshot: ConfigCell,
    tx: SignalSender,
}

impl View for ConfigManager {
    type V = ConfigSnapshot;

    closed spec fn view(&self) -> ConfigSnapshot {
        config_in(self.snapshot)
    }
}

impl ConfigManager {
    /// How often a new configuration was announced.
    pub closed spec fn announced(self) -> nat {
        channel::signals_handed(self.tx)
    }

    /// How many configurations a slow watcher may fall behind before it loses the oldest
    /// announcements, at least.
    pub closed spec fn room(self) -> nat {
        channel::signal_room(self.tx)
    }

    /// The watcher watches this configuration.
    pub closed spec fn watched_by(self, rx: SignalReceiver) -> bool {
        channel::signal_line_heard(rx) == channel::signal_line(self.tx)
    }

    /// Of how many configurations the watcher has still to be told.
    pub closed spec fn pending(self, rx: SignalReceiver) -> int {
        self.announced() - channel::signal_next(rx)
    }

    /// How many configurations a slow watcher may fall behind.
    pub const CAPACITY: usize = 16;

    /// Without routes.
    pub fn new() -> (r: ConfigManager)
        ensures
            r@.routes@ == Seq::<ServerRoute>::empty(),
            r.announced() == 0,
            r.room() == Self::CAPACITY,
            r.room() == 16,
    {
        ConfigManager {
            snapshot: config_cell(Arc::new(ConfigSnapshot { routes: Vec::new() })),
            tx: signal_channel(Self::CAPACITY),
        }
    }

    /// The configuration in force. What is handed out stays as it is when another one takes its
    /// place.
    pub fn snapshot(&self) -> (r: Arc<ConfigSnapshot>)
        ensures
            *r == self@,
    {
        config_cell_load(&self.snapshot)
    }

    /// A new watcher. It is told of every configuration that is put in place from now on.
    pub fn subscribe(&self) -> (rx: SignalReceiver)
        ensures
            self.watched_by(rx),
            self.pending(rx) == 0,
    {
        signal_subscribe(&self.tx)
    }

    /// Tells a watcher of one configuration that was put in place, if there is one of which it was
    /// not told. `Err` is the number of announcements that it has lost, the oldest of those for it,
    /// because it was further behind than there is room for.
    pub fn next_change(&self, rx: &mut SignalReceiver) -> (r: Result<bool, u64>)
        requires
            self.watched_by(*old(rx)),
        ensures
            self.watched_by(*final(rx)),
            match r {
                Ok(told) => {
                    &&& told == (self.pending(*old(rx)) > 0)
                    &&& self.pending(*final(rx)) == self.pending(*old(rx)) - (if told {
                        1int
                    } else {
                        0int
                    })
                    &&& self.pending(*final(rx)) >= 0
                },
                Err(lost) => {
                    &&& lost > 0
                    &&& self.pending(*final(rx)) == self.pending(*old(rx)) - lost
                    &&& self.pending(*final(rx)) >= self.room()
                },
            },
    {
        signal_try_recv(&self.tx, rx)
    }

    /// Puts another configuration in place, and announces it to every watcher once.
    pub fn replace(&mut self, snapshot: ConfigSnapshot)
        ensures
            final(self)@ == snapshot,
            final(self).announced() == old(self).announced() + 1,
            final(self).room() == old(self).room(),
            forall|rx: SignalReceiver| #[trigger]
                final(self).watched_by(rx) == old(self).watched_by(rx),
            forall|rx: SignalReceiver| #[trigger]
                final(self).pending(rx) == old(self).pending(rx) + 1,
    {
        config_cell_store(&mut self.snapshot, Arc::new(snapshot));
        signal_send(&mut self.tx);
    }

    /// Reads the stored routes, up to the first that is not a route.
    pub fn load(rows: Vec<StoredRoute>) -> (r: Result<Vec<ServerRoute>, RouteError>)
        ensures
            match r {
                Ok(routes) => routes@.len() == rows@.len() && forall|i: int|
                    0 <= i < rows@.len() ==> (#[trigger] rows@[i]).row.fault(rows@[i].limits)
                        is None && routes@[i].is_row(rows@[i].row, rows@[i].limits),
                Err(e) => exists|i: int|
                    0 <= i < rows@.len() && (#[trigger] rows@[i]).row.fault(rows@[i].limits)
                        == Some(e) && forall|j: int|
                        0 <= j < i ==> (#[trigger] rows@[j]).row.fault(rows@[j].limits) is None,
            },
    {
        let mut routes: Vec<ServerRoute> = Vec::new();
        for stored in it: rows
            invariant
                it.seq() == rows@,
                routes@.len() == it.index(),
                forall|i: int|
                    0 <= i < it.index() ==> (#[trigger] rows@[i]).row.fault(rows@[i].limits) is None
                        && routes@[i].is_row(rows@[i].row, rows@[i].limits),
        {
            assert(stored == rows@[it.index() as int]);
            match ServerRoute::try_from(stored.row, stored.limits) {
                Ok(route) => {
                    routes.push(route);
                },
                Err(e) => {
                    return Err(e);
                },
            }
        }
        Ok(routes)
    }

    /// Whether routes make a configuration: those with a listener have a listen address, those
    /// found by host name have one, and no two are found in the same place.
    pub fn validate(routes: &Vec<ServerRoute>) -> (r: Result<(), ConfigError>)
        ensures
            match r {
                Ok(_) => valid(routes@),
                Err(e) => refused(routes@, e) && !valid(routes@),
            },
    {
        let mut seen_listen: Vec<SocketAddr> = Vec::new();
        let mut seen_host = StringHashSet::new();
        let mut i: usize = 0;
        while i < routes.len()
            invariant
                i <= routes@.len(),
                valid(routes@.subrange(0, i as int)),
                hosts_seen(routes@, i as int, seen_host@),
                listens_seen(routes@, i as int, seen_listen@),
            decreases routes@.len() - i,
        {
            let checked = if routes[i].route_type.is_by_host() {
                check_host(routes, i, &mut seen_host)
            } else {
                check_listen(routes, i, &mut seen_listen)
            };
            if let Err(e) = checked {
                proof {
                    faulty_is_invalid(routes@, i as int, e);
                }
                return Err(e);
            }
            proof {
                valid_extends(routes@, i as int);
            }
            i += 1;
        }
        assert(routes@.subrange(0, i as int) =~= routes@);
        Ok(())
    }

    /// Reads the stored routes, checks them, puts them in place and announces it. Where reading
    /// or checking fails, the configuration in force stays, and nothing is announced.
    pub fn reload(&mut self, rows: Vec<StoredRoute>) -> (r: Result<(), ReloadError>)
        ensures
            final(self).announced() == old(self).announced() + (if r is Ok {
                1nat
            } else {
                0nat
            }),
            final(self).room() == old(self).room(),
            forall|rx: SignalReceiver| #[trigger]
                final(self).watched_by(rx) == old(self).watched_by(rx),
            forall|rx: SignalReceiver| #[trigger]
                final(self).pending(rx) == old(self).pending(rx) + (if r is Ok {
                    1int
                } else {
                    0int
                }),
            match r {
                Ok(_) => final(self)@.routes@.len() == rows@.len() && valid(final(self)@.routes@)
                    && forall|i: int|
                    0 <= i < rows@.len() ==> (#[trigger] rows@[i]).row.fault(rows@[i].limits)
                        is None && final(self)@.routes@[i].is_row(rows@[i].row, rows@[i].limits),
                Err(ReloadError::Route(e)) => final(self)@ == old(self)@ && exists|i: int|
                    0 <= i < rows@.len() && (#[trigger] rows@[i]).row.fault(rows@[i].limits)
                        == Some(e) && forall|j: int|
                        0 <= j < i ==> (#[trigger] rows@[j]).row.fault(rows@[j].limits) is None,
                Err(ReloadError::Config(e)) => final(self)@ == old(self)@ && exists|
                    routes: Seq<ServerRoute>,
                | #[trigger]
                    refused(routes, e) && !valid(routes) && routes.len() == rows@.len() && forall|
                        i: int,
                    |
                        0 <= i < rows@.len() ==> (#[trigger] rows@[i]).row.fault(rows@[i].limits)
                            is None && routes[i].is_row(rows@[i].row, rows@[i].limits),
            },
    {
        let routes = match ConfigManager::load(rows) {
            Ok(routes) => routes,
            Err(e) => {
                return Err(ReloadError::Route(e));
            },
        };
        if let Err(e) = ConfigManager::validate(&routes) {
            return Err(ReloadError::Config(e));
        }
        self.replace(ConfigSnapshot { routes });
        Ok(())
    }
}

impl Default for ConfigManager {
    fn default() -> (r: ConfigManager)
        ensures
            r@.routes@ == Seq::<ServerRoute>::empty(),
            r.announced() == 0,
            r.room() == Self::CAPACITY,
    {
        ConfigManager::new()
    }
}

/// Routes make a configuration exactly where every HTTP and HTTPS route has a host name, every
/// other route listens at an address, no two of the former have the same host name, in any case of
/// its letters, and no two of the latter the same address and port.
pub proof fn which_routes_make_a_configuration(routes: Seq<ServerRoute>)
    ensures
        valid(routes) <==> {
            &&& forall|i: int|
                0 <= i < routes.len() ==> (if (#[trigger] routes[i]).route_type == RouteType::Http
                    || routes[i].route_type == RouteType::Https {
                    routes[i].hostname is Some
                } else {
                    ip::ip_of(routes[i].listen_host@) is Some
                })
            &&& forall|i: int, j: int|
                0 <= i < j < routes.len() ==> !same_host(#[trigger] routes[i], #[trigger] routes[j])
                    && !same_listener(routes[i], routes[j])
        },
{
    if valid(routes) {
        assert forall|i: int| 0 <= i < routes.len() implies (if (
        #[trigger] routes[i]).route_type == RouteType::Http || routes[i].route_type
            == RouteType::Https {
            routes[i].hostname is Some
        } else {
            ip::ip_of(routes[i].listen_host@) is Some
        }) by {
            assert(reachable(routes[i]));
        }
        assert forall|i: int, j: int| 0 <= i < j < routes.len() implies !same_host(
            #[trigger] routes[i],
            #[trigger] routes[j],
        ) && !same_listener(routes[i], routes[j]) by {
            assert(!clash(routes[i], routes[j]));
        }
    } else {
        if forall|i: int| 0 <= i < routes.len() ==> reachable(#[trigger] routes[i]) {
            let (i, j) = choose|i: int, j: int|
                0 <= i < j < routes.len() && clash(#[trigger] routes[i], #[trigger] routes[j]);
            assert(reachable(routes[i]) && reachable(routes[j]));
            assert(same_host(routes[i], routes[j]) || same_listener(routes[i], routes[j]));
        } else {
            let i = choose|i: int| 0 <= i < routes.len() && !reachable(#[trigger] routes[i]);
            assert(!reachable(routes[i]));
        }
    }
}

/// Both routes are found by host name, and have the same.
pub open spec fn same_host(a: ServerRoute, b: ServerRoute) -> bool {
    &&& a.route_type == RouteType::Http || a.route_type == RouteType::Https
    &&& b.route_type == RouteType::Http || b.route_type == RouteType::Https
    &&& a.hostname matches Some(x) && (b.hostname matches Some(y) && text::same_ignoring_case(
        x@,
        y@,
    ))
}

/// Both routes have a listener, at the same address and port.
pub open spec fn same_listener(a: ServerRoute, b: ServerRoute) -> bool {
    &&& a.route_type == RouteType::Tcp || a.route_type == RouteType::Udp
    &&& b.route_type == RouteType::Tcp || b.route_type == RouteType::Udp
    &&& ip::ip_of(a.listen_host@) is Some
    &&& ip::ip_of(a.listen_host@) == ip::ip_of(b.listen_host@)
    &&& a.listen_port == b.listen_port
}

/// A refused configuration is refused for a fault that one of its routes has, and names that
/// route.
pub proof fn refusal_names_the_route(routes: Seq<ServerRoute>, e: ConfigError) -> (i: int)
    requires
        refused(routes, e),
    ensures
        0 <= i < routes.len(),
        e matches ConfigError::NoHostname { route } ==> route == routes[i].name
            && routes[i].hostname is None && (routes[i].route_type == RouteType::Http
            || routes[i].route_type == RouteType::Https),
        e matches ConfigError::InvalidListen { route } ==> route == routes[i].name && ip::ip_of(
            routes[i].listen_host@,
        ) is None && (routes[i].route_type == RouteType::Tcp || routes[i].route_type
            == RouteType::Udp),
        e matches ConfigError::DuplicateHostname { host, route } ==> route == routes[i].name
            && exists|j: int| 0 <= j < i && same_host(#[trigger] routes[j], routes[i]),
        e matches ConfigError::DuplicateListen { addr, route } ==> route == routes[i].name
            && routes[i].listen() == Some(addr) && exists|j: int|
            0 <= j < i && same_listener(#[trigger] routes[j], routes[i]),
{
    let i = choose|i: int|
        0 <= i < routes.len() && valid(routes.subrange(0, i)) && #[trigger] fault_at(routes, i, e);
    assert(fault_at(routes, i, e));
    if e is DuplicateHostname || e is DuplicateListen {
        let j = choose|j: int| 0 <= j < i && clash(#[trigger] routes[j], routes[i]);
        assert(same_host(routes[j], routes[i]) || same_listener(routes[j], routes[i]));
    }
    i
}

} // verus!
