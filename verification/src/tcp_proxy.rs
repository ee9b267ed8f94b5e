//! The TCP entrance: the listener picks the route, and the bytes pass through.
use crate::acl_store::{self, AclRule, AclSnapshot, AclStore};
use crate::conn_limiter::{ConnGuard, ConnLimiter};
use crate::conn_registry::ConnRegistry;
use crate::ids::RouteId;
use crate::ip::{self, SocketAddr};
use crate::maps::{self, AddrKey};
use crate::route::{self, RouteTable, RouteTableError, RouteType, ServerRoute};
use std::sync::Arc;
use vstd::prelude::*;

verus! {

/// How long the connections of a listener that is taken away may go on, in milliseconds.
pub const DRAIN_TIMEOUT_MS: u64 = 30000;

/// How often it is looked whether they have ended, in milliseconds.
pub const DRAIN_POLL_MS: u64 = 50;

/// What an agent is asked to open for a client.
#[derive(Debug)]
pub struct OpenTcp {
    pub route_id: RouteId,
    pub target_host: String,
    pub target_port: u16,
    pub client_addr: Option<String>,
}

/// The agent is asked to open the target of `route` for the client at `peer`.
pub open spec fn opens(o: OpenTcp, route: ServerRoute, peer: SocketAddr) -> bool {
    &&& o.route_id == route.id
    &&& o.target_host == route.target_host
    &&& o.target_port == route.target_port
    &&& o.client_addr matches Some(a) && ip::is_socket_text(peer, a@)
}

/// What the agent is asked to open for a client at `peer`.
pub fn open_tcp(route: &ServerRoute, peer: SocketAddr) -> (o: OpenTcp)
    ensures
        opens(o, *route, peer),
{
    OpenTcp {
        route_id: route.id,
        target_host: route.target_host.clone(),
        target_port: route.target_port,
        client_addr: Some(peer.to_text()),
    }
}

/// What came of asking an agent to open a target.
#[derive(Clone, Copy, PartialEq, Eq, Structural, Debug, Hash)]
pub enum OpenEvent {
    /// No stream to the agent could be opened.
    StreamFailed,
    /// The request could not be sent.
    SendFailed,
    /// The agent has opened the target.
    Opened,
    /// The agent could not open the target.
    Refused,
    /// The agent has sent something else, or something that cannot be read.
    Unexpected,
    /// The agent has closed the stream without an answer.
    Closed,
    /// The answer could not be read.
    ReadFailed,
    /// The agent has not answered in time.
    TimedOut,
}

/// What to do once an agent was asked to open the target of a connection.
#[derive(Clone, Copy, PartialEq, Eq, Structural, Debug, Hash)]
pub enum TcpOpen {
    /// Both directions are copied.
    Copy,
    /// The client is dropped, and the failure is counted.
    Drop { route_error: bool },
}

/// What to do once an agent was asked to open the target of a connection. Only an agent that
/// refused counts as an error of the route.
pub fn forward_tcp(ev: OpenEvent) -> (r: TcpOpen)
    ensures
        r == (match ev {
            OpenEvent::Opened => TcpOpen::Copy,
            OpenEvent::Refused => TcpOpen::Drop { route_error: true },
            _ => TcpOpen::Drop { route_error: false },
        }),
{
    match ev {
        OpenEvent::Opened => TcpOpen::Copy,
        OpenEvent::Refused => TcpOpen::Drop { route_error: true },
        _ => TcpOpen::Drop { route_error: false },
    }
}

/// How many connections a route may have, if they are limited.
pub open spec fn limit_of(route: ServerRoute) -> Option<u64> {
    match route.limits {
        Some(l) => l.max_connections,
        None => None,
    }
}

/// How many connections a route may have, if they are limited.
pub fn connection_limit(route: &ServerRoute) -> (r: Option<u64>)
    ensures
        r == limit_of(*route),
{
    match &route.limits {
        Some(l) => l.max_connections,
        None => None,
    }
}

// ---- what becomes of a connection ----

/// What becomes of a connection to a route whose bytes pass through.
pub enum Passage {
    /// The access rules keep it out.
    Denied,
    /// The node of the route is offline.
    Offline,
    /// The route has as many connections as it may have.
    AtLimit,
    /// It is passed on.
    Open(Through),
}

/// A connection that is passed on.
pub struct Through {
    pub route: Arc<ServerRoute>,
    /// The connection of the route's node, on which a stream has to be opened.
    pub conn: quinn::Connection,
    /// The share of the route's connections that this one takes, if they are limited. It is given
    /// back when the connection ends.
    pub guard: Option<ConnGuard>,
    /// What the agent is asked to open.
    pub open: OpenTcp,
}

/// What becomes of a connection to `route` that the access rules let in (`allowed`) or not, where
/// `count` connections of the route are open and `conn` is the connection of its node.
pub open spec fn passes(
    p: Passage,
    route: Arc<ServerRoute>,
    allowed: bool,
    count: u64,
    conn: Option<quinn::Connection>,
    peer: SocketAddr,
) -> bool {
    let limit = limit_of(*route);
    if !allowed {
        p is Denied
    } else if conn is None {
        p is Offline
    } else if limit is Some && count >= limit->0 {
        p is AtLimit
    } else {
        &&& p matches Passage::Open(t)
        &&& t.route == route
        &&& Some(t.conn) == conn
        &&& (t.guard is Some) == (limit is Some)
        &&& t.guard matches Some(g) ==> g.route() == route.id
        &&& opens(t.open, *route, peer)
    }
}

/// The open connections of every route are as they were, but that a connection which is passed on
/// takes one of those of its route, if they are limited.
pub open spec fn takes_passage(before: ConnLimiter, after: ConnLimiter, p: Passage) -> bool {
    forall|id: RouteId| #[trigger]
        after.count(id) == (if p matches Passage::Open(t) && t.guard is Some && t.route.id == id {
            before.count(id) + 1
        } else {
            before.count(id) as int
        })
}

/// `p` is what becomes of a connection from `peer` to `route`.
pub open spec fn passage_of<F: Fn(&AclRule, &SocketAddr, &str, u16) -> bool>(
    p: Passage,
    route: Arc<ServerRoute>,
    rules: AclSnapshot,
    limiter: ConnLimiter,
    conns: Map<u128, quinn::Connection>,
    peer: SocketAddr,
    covers: F,
) -> bool {
    exists|allowed: bool|
        acl_store::acl_says(
            rules,
            covers,
            route.id,
            peer,
            route.target_host@,
            route.target_port,
            allowed,
        ) && #[trigger] passes(
            p,
            route,
            allowed,
            limiter.count(route.id),
            maps::entry(conns, route.node_id.value),
            peer,
        )
}

/// What becomes of a connection from `peer` to a route: it has to be let in, the node has to be
/// online, and the route must not have all the connections that it may have.
pub fn pass_through<F: Fn(&AclRule, &SocketAddr, &str, u16) -> bool>(
    route: Arc<ServerRoute>,
    acl: &AclStore,
    conns: &ConnRegistry,
    limiter: &mut ConnLimiter,
    peer: SocketAddr,
    covers: F,
) -> (p: Passage)
    requires
        forall|rule: &AclRule, s: &SocketAddr, host: &str, port: u16|
            call_requires(covers, (rule, s, host, port)),
    ensures
        passage_of(p, route, acl@, *old(limiter), conns@, peer, covers),
        takes_passage(*old(limiter), *final(limiter), p),
{
    let ghost count = limiter.count(route.id);
    let ghost conn_then = maps::entry(conns@, route.node_id.value);
    let allowed = acl.allows(
        route.id,
        &peer,
        route.target_host.as_str(),
        route.target_port,
        covers,
    );
    if !allowed {
        let p = Passage::Denied;
        assert(passes(p, route, allowed, count, conn_then, peer));
        return p;
    }
    let conn = match conns.get(route.node_id) {
        Some(c) => c,
        None => {
            let p = Passage::Offline;
            assert(passes(p, route, allowed, count, conn_then, peer));
            return p;
        },
    };
    let guard = match connection_limit(&route) {
        Some(max) => match limiter.try_acquire(route.id, max) {
            Some(g) => Some(g),
            None => {
                let p = Passage::AtLimit;
                assert(passes(p, route, allowed, count, conn_then, peer));
                return p;
            },
        },
        None => None,
    };
    let open = open_tcp(&route, peer);
    let p = Passage::Open(Through { route, conn, guard, open });
    assert(passes(p, route, allowed, count, conn_then, peer));
    p
}

/// What becomes of a connection that a listener has accepted.
pub enum TcpDecision {
    /// The listener has no route any more: the connection is dropped, and counts as an error of
    /// the route.
    NoRoute,
    /// The route decides.
    Route(Passage),
}

impl TcpDecision {
    /// The connection counts as one that has found its route: it was not kept out.
    pub open spec fn matched(self) -> bool {
        self matches TcpDecision::Route(p) && !(p is Denied)
    }

    /// Whether the connection counts as one that has found its route.
    pub fn is_matched(&self) -> (r: bool)
        ensures
            r == self.matched(),
    {
        match self {
            TcpDecision::NoRoute => false,
            TcpDecision::Route(p) => match p {
                Passage::Denied => false,
                _ => true,
            },
        }
    }

    /// The connection counts as an error of its route: there is none, or its node is offline.
    pub open spec fn route_error(self) -> bool {
        match self {
            TcpDecision::NoRoute => true,
            TcpDecision::Route(p) => p is Offline,
        }
    }

    /// Whether the connection counts as an error of its route.
    pub fn is_route_error(&self) -> (r: bool)
        ensures
            r == self.route_error(),
    {
        match self {
            TcpDecision::NoRoute => true,
            TcpDecision::Route(p) => match p {
                Passage::Offline => true,
                _ => false,
            },
        }
    }
}

/// What becomes of a connection from `peer` that the listener at `addr` has accepted. The route
/// is looked up anew for each one.
pub fn accept<F: Fn(&AclRule, &SocketAddr, &str, u16) -> bool>(
    addr: &SocketAddr,
    routes: &RouteTable,
    acl: &AclStore,
    conns: &ConnRegistry,
    limiter: &mut ConnLimiter,
    peer: SocketAddr,
    covers: F,
) -> (d: TcpDecision)
    requires
        forall|rule: &AclRule, s: &SocketAddr, host: &str, port: u16|
            call_requires(covers, (rule, s, host, port)),
    ensures
        match maps::entry(routes@, route::addr_key(*addr)) {
            None => d is NoRoute && forall|id: RouteId| #[trigger]
                final(limiter).count(id) == old(limiter).count(id),
            Some(r) => {
                &&& d matches TcpDecision::Route(p)
                &&& passage_of(p, r, acl@, *old(limiter), conns@, peer, covers)
                &&& takes_passage(*old(limiter), *final(limiter), p)
            },
        },
{
    match routes.lookup(addr) {
        None => TcpDecision::NoRoute,
        Some(route) => TcpDecision::Route(
            pass_through(route, acl, conns, limiter, peer, covers),
        ),
    }
}

// ---- the listeners ----

/// The route has a listener of the given type.
pub open spec fn listens_as(r: ServerRoute, t: RouteType) -> bool {
    r.enabled && r.route_type == t
}

/// The routes of `routes` that have a listener of the given type, in their order.
pub open spec fn listening_spec(routes: Seq<Arc<ServerRoute>>, t: RouteType) -> Seq<
    Arc<ServerRoute>,
>
    decreases routes.len(),
{
    if routes.len() == 0 {
        Seq::empty()
    } else if listens_as(*routes.last(), t) {
        listening_spec(routes.drop_last(), t).push(routes.last())
    } else {
        listening_spec(routes.drop_last(), t)
    }
}

/// The routes that have a listener of the given type: the enabled ones of that type.
pub fn listening(routes: Vec<Arc<ServerRoute>>, t: RouteType) -> (r: Vec<Arc<ServerRoute>>)
    ensures
        r@ == listening_spec(routes@, t),
{
    let mut out: Vec<Arc<ServerRoute>> = Vec::new();
    for route in it: routes
        invariant
            it.seq() == routes@,
            out@ == listening_spec(routes@.subrange(0, it.index() as int), t),
    {
        assert(route == routes@[it.index() as int]);
        assert(routes@.subrange(0, it.index() + 1).drop_last() =~= routes@.subrange(
            0,
            it.index() as int,
        ));
        if route.enabled && route.route_type == t {
            out.push(route);
        }
    }
    assert(routes@.subrange(0, routes@.len() as int) =~= routes@);
    out
}

/// The last of the first `n` routes that has a TCP listener at `a`.
pub open spec fn wanted_at(routes: Seq<ServerRoute>, n: int, a: SocketAddr) -> Option<ServerRoute>
    decreases n,
{
    if n <= 0 {
        None
    } else if listens_as(routes[n - 1], RouteType::Tcp) && routes[n - 1].listen() == Some(a) {
        Some(routes[n - 1])
    } else {
        wanted_at(routes, n - 1, a)
    }
}

/// How the listeners have to change to fit new routes.
#[derive(Debug)]
pub struct ReconcilePlan {
    /// The listeners to be drained and taken away.
    pub remove: Vec<SocketAddr>,
    /// The routes that take the place of the ones at their listeners.
    pub update: Vec<ServerRoute>,
    /// The routes that get a new listener.
    pub add: Vec<ServerRoute>,
}

/// `s` has exactly one route for each address of which `p` holds, and it is the one that is
/// wanted there.
pub open spec fn one_each(
    s: Seq<ServerRoute>,
    routes: Seq<ServerRoute>,
    p: spec_fn(SocketAddr) -> bool,
) -> bool {
    &&& forall|i: int|
        0 <= i < s.len() ==> (#[trigger] s[i].listen() matches Some(a) && p(a) && wanted_at(
            routes,
            routes.len() as int,
            a,
        ) == Some(s[i]))
    &&& forall|a: SocketAddr|
        #![trigger wanted_at(routes, routes.len() as int, a)]
        p(a) && wanted_at(routes, routes.len() as int, a) is Some ==> exists|i: int|
            0 <= i < s.len() && #[trigger] s[i].listen() == Some(a)
    &&& forall|i: int, j: int|
        0 <= i < j < s.len() ==> #[trigger] s[i].listen() != #[trigger] s[j].listen()
}

impl ReconcilePlan {
    /// The plan brings the listeners at `current` in line with `routes`: those at which no route
    /// is wanted any more go, at those that stay the wanted route takes its place, and every other
    /// wanted route gets a listener.
    pub open spec fn fits(self, current: Seq<SocketAddr>, routes: Seq<ServerRoute>) -> bool {
        &&& self.remove@.no_duplicates()
        &&& forall|a: SocketAddr| #[trigger]
            self.remove@.contains(a) <==> current.contains(a) && wanted_at(
                routes,
                routes.len() as int,
                a,
            ) is None
        &&& one_each(self.update@, routes, (|a: SocketAddr| current.contains(a)))
        &&& one_each(self.add@, routes, (|a: SocketAddr| !current.contains(a)))
    }
}

fn holds_addr(v: &Vec<SocketAddr>, a: &SocketAddr) -> (r: bool)
    ensures
        r == v@.contains(*a),
{
    let mut i: usize = 0;
    while i < v.len()
        invariant
            i <= v@.len(),
            forall|j: int| 0 <= j < i ==> v@[j] != *a,
        decreases v@.len() - i,
    {
        if v[i] == *a {
            return true;
        }
        i += 1;
    }
    false
}

/// The route at `i` is the last with a TCP listener at its address.
pub open spec fn is_last(routes: Seq<ServerRoute>, i: int) -> bool {
    &&& listens_as(routes[i], RouteType::Tcp)
    &&& forall|j: int|
        i < j < routes.len() && listens_as(#[trigger] routes[j], RouteType::Tcp)
            ==> routes[j].listen() != routes[i].listen()
}

proof fn last_is_wanted(routes: Seq<ServerRoute>, n: int, i: int, a: SocketAddr)
    requires
        0 <= i < n <= routes.len(),
        listens_as(routes[i], RouteType::Tcp),
        routes[i].listen() == Some(a),
        forall|j: int|
            i < j < n && listens_as(#[trigger] routes[j], RouteType::Tcp) ==> routes[j].listen()
                != Some(a),
    ensures
        wanted_at(routes, n, a) == Some(routes[i]),
    decreases n,
{
    if i < n - 1 {
        last_is_wanted(routes, n - 1, i, a);
    }
}

proof fn wanted_is_last(routes: Seq<ServerRoute>, n: int, a: SocketAddr) -> (i: int)
    requires
        0 <= n <= routes.len(),
        wanted_at(routes, n, a) is Some,
    ensures
        0 <= i < n,
        wanted_at(routes, n, a) == Some(routes[i]),
        listens_as(routes[i], RouteType::Tcp),
        routes[i].listen() == Some(a),
        forall|j: int|
            i < j < n && listens_as(#[trigger] routes[j], RouteType::Tcp) ==> routes[j].listen()
                != Some(a),
    decreases n,
{
    if listens_as(routes[n - 1], RouteType::Tcp) && routes[n - 1].listen() == Some(a) {
        n - 1
    } else {
        wanted_is_last(routes, n - 1, a)
    }
}

/// Whether the route at `i` is the last with a TCP listener at its address `a`.
fn is_last_at(routes: &Vec<ServerRoute>, i: usize, addrs: &Vec<Option<SocketAddr>>) -> (r: bool)
    requires
        i < routes@.len(),
        addrs@.len() == routes@.len(),
        listens_as(routes@[i as int], RouteType::Tcp),
        forall|k: int|
            0 <= k < routes@.len() ==> #[trigger] addrs@[k] == (if listens_as(
                routes@[k],
                RouteType::Tcp,
            ) {
                routes@[k].listen()
            } else {
                None
            }),
        addrs@[i as int] is Some,
    ensures
        r == is_last(routes@, i as int),
{
    let n: usize = routes.len();
    let mut j: usize = i + 1;
    while j < n
        invariant
            i < j <= routes@.len(),
            n == routes@.len(),
            addrs@.len() == routes@.len(),
            listens_as(routes@[i as int], RouteType::Tcp),
            addrs@[i as int] is Some,
            forall|k: int|
                0 <= k < routes@.len() ==> #[trigger] addrs@[k] == (if listens_as(
                    routes@[k],
                    RouteType::Tcp,
                ) {
                    routes@[k].listen()
                } else {
                    None
                }),
            forall|k: int|
                i < k < j && listens_as(#[trigger] routes@[k], RouteType::Tcp)
                    ==> routes@[k].listen() != routes@[i as int].listen(),
        decreases routes@.len() - j,
    {
        let same = match (addrs[j], addrs[i]) {
            (Some(a), Some(b)) => a == b,
            _ => false,
        };
        assert(addrs@[j as int] == addrs@[j as int] && addrs@[i as int] == addrs@[i as int]);
        if same {
            assert(listens_as(routes@[j as int], RouteType::Tcp));
            return false;
        }
        j += 1;
    }
    true
}

/// How the listeners at `current` have to change to fit `new_routes`, of which the enabled TCP
/// routes have one each. The first route whose listen host is no address stops everything, before
/// anything is changed.
pub fn reconcile(current: &Vec<SocketAddr>, new_routes: &Vec<ServerRoute>) -> (r: Result<
    ReconcilePlan,
    String,
>)
    requires
        current@.no_duplicates(),
    ensures
        match r {
            Ok(plan) => {
                &&& forall|i: int|
                    0 <= i < new_routes@.len() && listens_as(
                        #[trigger] new_routes@[i],
                        RouteType::Tcp,
                    ) ==> new_routes@[i].listen() is Some
                &&& plan.fits(current@, new_routes@)
                &&& plan.wf()
            },
            Err(m) => exists|i: int|
                0 <= i < new_routes@.len() && listens_as(#[trigger] new_routes@[i], RouteType::Tcp)
                    && new_routes@[i].listen() is None && m@ == "invalid listen_host "@
                    + crate::text::quoted(new_routes@[i].listen_host@) && forall|j: int|
                    0 <= j < i && listens_as(#[trigger] new_routes@[j], RouteType::Tcp)
                        ==> new_routes@[j].listen() is Some,
        },
{
    let n: usize = new_routes.len();
    let mut addrs: Vec<Option<SocketAddr>> = Vec::new();
    let mut i: usize = 0;
    while i < n
        invariant
            n == new_routes@.len(),
            i <= n,
            addrs@.len() == i,
            forall|k: int|
                0 <= k < i ==> #[trigger] addrs@[k] == (if listens_as(
                    new_routes@[k],
                    RouteType::Tcp,
                ) {
                    new_routes@[k].listen()
                } else {
                    None
                }),
            forall|k: int|
                0 <= k < i && listens_as(#[trigger] new_routes@[k], RouteType::Tcp)
                    ==> new_routes@[k].listen() is Some,
        decreases n - i,
    {
        let route = &new_routes[i];
        if route.enabled && route.route_type == RouteType::Tcp {
            match route.listen_addr() {
                Ok(a) => {
                    addrs.push(Some(a));
                },
                Err(m) => {
                    assert(listens_as(new_routes@[i as int], RouteType::Tcp));
                    return Err(m);
                },
            }
        } else {
            addrs.push(None);
        }
        i += 1;
    }
    let (update, add) = wanted_routes(current, new_routes, &addrs);
    let remove = unwanted(current, new_routes, &addrs);
    Ok(ReconcilePlan { remove, update, add })
}

/// The address of each of the routes with a TCP listener.
spec fn tcp_addrs(routes: Seq<ServerRoute>, addrs: Seq<Option<SocketAddr>>) -> bool {
    &&& addrs.len() == routes.len()
    &&& forall|k: int|
        0 <= k < routes.len() ==> #[trigger] addrs[k] == (if listens_as(routes[k], RouteType::Tcp) {
            routes[k].listen()
        } else {
            None
        })
    &&& forall|k: int|
        0 <= k < routes.len() && listens_as(#[trigger] routes[k], RouteType::Tcp)
            ==> routes[k].listen() is Some
}

/// The listeners at which no route is wanted.
fn unwanted(
    current: &Vec<SocketAddr>,
    routes: &Vec<ServerRoute>,
    addrs: &Vec<Option<SocketAddr>>,
) -> (remove: Vec<SocketAddr>)
    requires
        current@.no_duplicates(),
        tcp_addrs(routes@, addrs@),
    ensures
        remove@.no_duplicates(),
        forall|a: SocketAddr| #[trigger]
            remove@.contains(a) <==> current@.contains(a) && wanted_at(
                routes@,
                routes@.len() as int,
                a,
            ) is None,
{
    let mut remove: Vec<SocketAddr> = Vec::new();
    let mut i: usize = 0;
    while i < current.len()
        invariant
            i <= current@.len(),
            current@.no_duplicates(),
            tcp_addrs(routes@, addrs@),
            remove@.no_duplicates(),
            forall|a: SocketAddr| #[trigger]
                remove@.contains(a) <==> current@.subrange(0, i as int).contains(a) && wanted_at(
                    routes@,
                    routes@.len() as int,
                    a,
                ) is None,
        decreases current@.len() - i,
    {
        let a = current[i];
        let ghost was = remove@;
        let ghost before = current@.subrange(0, i as int);
        let ghost after = current@.subrange(0, i + 1);
        let wanted = is_wanted(routes, addrs, &a);
        assert(!before.contains(a)) by {
            if before.contains(a) {
                let k = choose|k: int| 0 <= k < before.len() && before[k] == a;
                assert(current@[k] == current@[i as int]);
            }
        }
        if !wanted {
            remove.push(a);
        }
        assert forall|x: SocketAddr| #[trigger]
            remove@.contains(x) <==> after.contains(x) && wanted_at(
                routes@,
                routes@.len() as int,
                x,
            ) is None by {
            assert(after.contains(x) <==> before.contains(x) || x == a) by {
                if after.contains(x) {
                    let k = choose|k: int| 0 <= k < after.len() && after[k] == x;
                    if k < i {
                        assert(before[k] == x);
                    }
                }
                if before.contains(x) {
                    let k = choose|k: int| 0 <= k < before.len() && before[k] == x;
                    assert(after[k] == x);
                }
                assert(after[i as int] == a);
            }
            if !wanted {
                assert(remove@.contains(x) <==> was.contains(x) || x == a) by {
                    if remove@.contains(x) {
                        let k = choose|k: int| 0 <= k < remove@.len() && remove@[k] == x;
                        if k < was.len() {
                            assert(was[k] == x);
                        }
                    }
                    if was.contains(x) {
                        let k = choose|k: int| 0 <= k < was.len() && was[k] == x;
                        assert(remove@[k] == x);
                    }
                    assert(remove@.last() == remove@[remove@.len() - 1]);
                    if !wanted {
                        assert(remove@[was.len() as int] == a);
                    }
                }
            }
        }
        assert(remove@.no_duplicates()) by {
            if !wanted {
                assert(!was.contains(a));
            }
        }
        i += 1;
    }
    assert(current@.subrange(0, i as int) =~= current@);
    remove
}

/// Whether a route is wanted at `a`.
fn is_wanted(routes: &Vec<ServerRoute>, addrs: &Vec<Option<SocketAddr>>, a: &SocketAddr) -> (r: bool)
    requires
        tcp_addrs(routes@, addrs@),
    ensures
        r == (wanted_at(routes@, routes@.len() as int, *a) is Some),
{
    let mut i: usize = routes.len();
    while i > 0
        invariant
            i <= routes@.len(),
            tcp_addrs(routes@, addrs@),
            wanted_at(routes@, routes@.len() as int, *a) == wanted_at(routes@, i as int, *a),
        decreases i,
    {
        assert(addrs@[i - 1] == addrs@[i - 1]);
        let here = match addrs[i - 1] {
            Some(b) => b == *a,
            None => false,
        };
        if here {
            return true;
        }
        i -= 1;
    }
    false
}

/// The routes that are wanted at the listeners of `current`, and those that are wanted elsewhere.
fn wanted_routes(
    current: &Vec<SocketAddr>,
    routes: &Vec<ServerRoute>,
    addrs: &Vec<Option<SocketAddr>>,
) -> (r: (Vec<ServerRoute>, Vec<ServerRoute>))
    requires
        tcp_addrs(routes@, addrs@),
    ensures
        one_each(r.0@, routes@, (|a: SocketAddr| current@.contains(a))),
        one_each(r.1@, routes@, (|a: SocketAddr| !current@.contains(a))),
{
    let mut update: Vec<ServerRoute> = Vec::new();
    let mut add: Vec<ServerRoute> = Vec::new();
    let ghost there = |a: SocketAddr| current@.contains(a);
    let ghost elsewhere = |a: SocketAddr| !current@.contains(a);
    let mut i: usize = 0;
    while i < routes.len()
        invariant
            i <= routes@.len(),
            tcp_addrs(routes@, addrs@),
            there == (|a: SocketAddr| current@.contains(a)),
            elsewhere == (|a: SocketAddr| !current@.contains(a)),
            lasts(update@, routes@, i as int, there),
            lasts(add@, routes@, i as int, elsewhere),
        decreases routes@.len() - i,
    {
        let ghost u = update@;
        let ghost w = add@;
        assert(addrs@[i as int] == addrs@[i as int]);
        match addrs[i] {
            Some(a) => {
                assert(listens_as(routes@[i as int], RouteType::Tcp));
                if is_last_at(routes, i, addrs) {
                    proof {
                        last_is_wanted(routes@, routes@.len() as int, i as int, a);
                    }
                    if holds_addr(current, &a) {
                        update.push(routes[i].clone());
                        assert(there(a));
                        assert(!elsewhere(a));
                    } else {
                        add.push(routes[i].clone());
                        assert(elsewhere(a));
                        assert(!there(a));
                    }
                }
            },
            None => {
                assert(!listens_as(routes@[i as int], RouteType::Tcp));
            },
        }
        proof {
            lasts_extends(u, update@, routes@, i as int, there);
            lasts_extends(w, add@, routes@, i as int, elsewhere);
        }
        i += 1;
    }
    proof {
        lasts_is_one_each(update@, routes@, there);
        lasts_is_one_each(add@, routes@, elsewhere);
    }
    (update, add)
}

/// `s` are those of the first `n` routes that are the last at their address, where `p` holds of
/// it, in their order.
spec fn lasts(
    s: Seq<ServerRoute>,
    routes: Seq<ServerRoute>,
    n: int,
    p: spec_fn(SocketAddr) -> bool,
) -> bool
    decreases n,
{
    if n <= 0 {
        s.len() == 0
    } else if is_last(routes, n - 1) && routes[n - 1].listen() is Some && p(
        routes[n - 1].listen()->0,
    ) {
        s.len() > 0 && s.last() == routes[n - 1] && lasts(s.drop_last(), routes, n - 1, p)
    } else {
        lasts(s, routes, n - 1, p)
    }
}

proof fn lasts_extends(
    before: Seq<ServerRoute>,
    after: Seq<ServerRoute>,
    routes: Seq<ServerRoute>,
    i: int,
    p: spec_fn(SocketAddr) -> bool,
)
    requires
        0 <= i < routes.len(),
        lasts(before, routes, i, p),
        if is_last(routes, i) && routes[i].listen() is Some && p(routes[i].listen()->0) {
            after == before.push(routes[i])
        } else {
            after == before
        },
    ensures
        lasts(after, routes, i + 1, p),
{
    if is_last(routes, i) && routes[i].listen() is Some && p(routes[i].listen()->0) {
        assert(after.drop_last() =~= before);
    }
}

proof fn lasts_members(
    s: Seq<ServerRoute>,
    routes: Seq<ServerRoute>,
    n: int,
    p: spec_fn(SocketAddr) -> bool,
    k: int,
) -> (i: int)
    requires
        0 <= n <= routes.len(),
        lasts(s, routes, n, p),
        0 <= k < s.len(),
    ensures
        0 <= i < n,
        s[k] == routes[i],
        is_last(routes, i),
        routes[i].listen() is Some,
        p(routes[i].listen()->0),
    decreases n,
{
    if is_last(routes, n - 1) && routes[n - 1].listen() is Some && p(routes[n - 1].listen()->0) {
        if k == s.len() - 1 {
            n - 1
        } else {
            lasts_members(s.drop_last(), routes, n - 1, p, k)
        }
    } else {
        lasts_members(s, routes, n - 1, p, k)
    }
}

proof fn lasts_distinct(
    s: Seq<ServerRoute>,
    routes: Seq<ServerRoute>,
    n: int,
    p: spec_fn(SocketAddr) -> bool,
    j: int,
    k: int,
)
    requires
        0 <= n <= routes.len(),
        lasts(s, routes, n, p),
        0 <= j < k < s.len(),
    ensures
        s[j].listen() != s[k].listen(),
    decreases n,
{
    if is_last(routes, n - 1) && routes[n - 1].listen() is Some && p(routes[n - 1].listen()->0) {
        if k == s.len() - 1 {
            let i = lasts_members(s.drop_last(), routes, n - 1, p, j);
            assert(s[j] == s.drop_last()[j]);
            assert(listens_as(routes[n - 1], RouteType::Tcp));
        } else {
            lasts_distinct(s.drop_last(), routes, n - 1, p, j, k);
        }
    } else {
        lasts_distinct(s, routes, n - 1, p, j, k);
    }
}

proof fn lasts_complete(
    s: Seq<ServerRoute>,
    routes: Seq<ServerRoute>,
    n: int,
    p: spec_fn(SocketAddr) -> bool,
    i: int,
)
    requires
        0 <= i < n <= routes.len(),
        lasts(s, routes, n, p),
        is_last(routes, i),
        routes[i].listen() is Some,
        p(routes[i].listen()->0),
    ensures
        s.contains(routes[i]),
    decreases n,
{
    if i == n - 1 {
        assert(s[s.len() - 1] == routes[i]);
    } else if is_last(routes, n - 1) && routes[n - 1].listen() is Some && p(
        routes[n - 1].listen()->0,
    ) {
        lasts_complete(s.drop_last(), routes, n - 1, p, i);
        let k = choose|k: int| 0 <= k < s.len() - 1 && s.drop_last()[k] == routes[i];
        assert(s[k] == routes[i]);
    } else {
        lasts_complete(s, routes, n - 1, p, i);
    }
}

proof fn lasts_is_one_each(
    s: Seq<ServerRoute>,
    routes: Seq<ServerRoute>,
    p: spec_fn(SocketAddr) -> bool,
)
    requires
        lasts(s, routes, routes.len() as int, p),
    ensures
        one_each(s, routes, p),
{
    let n = routes.len() as int;
    assert forall|k: int| 0 <= k < s.len() implies (#[trigger] s[k].listen() matches Some(a) && p(a)
        && wanted_at(routes, n, a) == Some(s[k])) by {
        let i = lasts_members(s, routes, n, p, k);
        last_is_wanted(routes, n, i, routes[i].listen()->0);
    }
    assert forall|a: SocketAddr|
        #![trigger wanted_at(routes, n, a)]
        p(a) && wanted_at(routes, n, a) is Some implies exists|k: int|
        0 <= k < s.len() && #[trigger] s[k].listen() == Some(a) by {
        let i = wanted_is_last(routes, n, a);
        assert(is_last(routes, i));
        lasts_complete(s, routes, n, p, i);
        let k = choose|k: int| 0 <= k < s.len() && s[k] == routes[i];
        assert(s[k].listen() == Some(a));
    }
    assert forall|j: int, k: int| 0 <= j < k < s.len() implies #[trigger] s[j].listen()
        != #[trigger] s[k].listen() by {
        lasts_distinct(s, routes, n, p, j, k);
    }
}

/// After a reconciliation there is a listener at exactly the addresses where a route is wanted:
/// those of `current` that stay, and the new ones.
pub proof fn listeners_fit_the_routes(
    current: Seq<SocketAddr>,
    routes: Seq<ServerRoute>,
    plan: ReconcilePlan,
    a: SocketAddr,
)
    requires
        plan.fits(current, routes),
    ensures
        (wanted_at(routes, routes.len() as int, a) is Some) <==> ((current.contains(a)
            && !plan.remove@.contains(a)) || exists|i: int|
            0 <= i < plan.add@.len() && #[trigger] plan.add@[i].listen() == Some(a)),
{
    let elsewhere = |x: SocketAddr| !current.contains(x);
    if !current.contains(a) {
        assert(elsewhere(a));
    }
}

/// Replaces the route at the listener of `route`: a new connection goes by the new one.
pub fn apply_update(routes: &mut RouteTable, addr: &SocketAddr, route: ServerRoute) -> (r: Result<
    (),
    RouteTableError,
>)
    requires
        route.listen() == Some(*addr),
    ensures
        r is Ok,
        final(routes)@ == old(routes)@.insert(route::addr_key(*addr), Arc::new(route)),
        old(routes).wf() ==> final(routes).wf(),
        old(routes)@.dom().finite() ==> final(routes)@.dom().finite(),
{
    routes.remove(addr);
    let r = routes.insert(route);
    assert(routes@ =~= old(routes)@.insert(route::addr_key(*addr), Arc::new(route)));
    r
}

/// A route table without the routes at the given addresses.
pub open spec fn table_without(
    t: Map<AddrKey, Arc<ServerRoute>>,
    gone: Seq<SocketAddr>,
) -> Map<AddrKey, Arc<ServerRoute>>
    decreases gone.len(),
{
    if gone.len() == 0 {
        t
    } else {
        table_without(t, gone.drop_last()).remove(route::addr_key(gone.last()))
    }
}

/// A route table with each of the given routes at its listen address.
pub open spec fn table_with(
    t: Map<AddrKey, Arc<ServerRoute>>,
    put: Seq<ServerRoute>,
) -> Map<AddrKey, Arc<ServerRoute>>
    decreases put.len(),
{
    if put.len() == 0 {
        t
    } else {
        table_with(t, put.drop_last()).insert(
            route::addr_key(put.last().listen()->0),
            Arc::new(put.last()),
        )
    }
}

impl ReconcilePlan {
    /// The route table once the plan was carried out: routes removed, then replaced, then added.
    pub open spec fn table_after(self, t: Map<AddrKey, Arc<ServerRoute>>) -> Map<
        AddrKey,
        Arc<ServerRoute>,
    > {
        table_with(table_with(table_without(t, self.remove@), self.update@), self.add@)
    }
}

proof fn gone_from_table(
    t: Map<AddrKey, Arc<ServerRoute>>,
    gone: Seq<SocketAddr>,
    a: SocketAddr,
)
    ensures
        maps::entry(table_without(t, gone), route::addr_key(a)) == (if gone.contains(a) {
            None
        } else {
            maps::entry(t, route::addr_key(a))
        }),
    decreases gone.len(),
{
    if gone.len() > 0 {
        let before = gone.drop_last();
        gone_from_table(t, before, a);
        if gone.last() == a {
            assert(gone[gone.len() - 1] == a);
        } else {
            if route::addr_key(gone.last()) == route::addr_key(a) {
                route::addr_key_is_injective(gone.last(), a);
            }
            if gone.contains(a) {
                let i = choose|i: int| 0 <= i < gone.len() && gone[i] == a;
                assert(before[i] == a);
            }
            if before.contains(a) {
                let i = choose|i: int| 0 <= i < before.len() && before[i] == a;
                assert(gone[i] == a);
            }
        }
    }
}

/// No route of `put` listens at `a`.
spec fn none_at(put: Seq<ServerRoute>, a: SocketAddr) -> bool {
    forall|i: int| 0 <= i < put.len() ==> #[trigger] put[i].listen() != Some(a)
}

proof fn untouched_in_table(
    t: Map<AddrKey, Arc<ServerRoute>>,
    put: Seq<ServerRoute>,
    a: SocketAddr,
)
    requires
        forall|i: int| 0 <= i < put.len() ==> #[trigger] put[i].listen() is Some,
        none_at(put, a),
    ensures
        maps::entry(table_with(t, put), route::addr_key(a)) == maps::entry(t, route::addr_key(a)),
    decreases put.len(),
{
    if put.len() > 0 {
        let before = put.drop_last();
        assert forall|i: int| 0 <= i < before.len() implies #[trigger] before[i].listen() is Some
            && before[i].listen() != Some(a) by {
            assert(before[i] == put[i]);
            assert(put[i].listen() is Some);
        }
        untouched_in_table(t, before, a);
        assert(put[put.len() - 1].listen() is Some);
        if route::addr_key(put.last().listen()->0) == route::addr_key(a) {
            route::addr_key_is_injective(put.last().listen()->0, a);
        }
    }
}

proof fn put_in_table(
    t: Map<AddrKey, Arc<ServerRoute>>,
    put: Seq<ServerRoute>,
    k: int,
)
    requires
        forall|i: int| 0 <= i < put.len() ==> #[trigger] put[i].listen() is Some,
        forall|i: int, j: int|
            0 <= i < j < put.len() ==> #[trigger] put[i].listen() != #[trigger] put[j].listen(),
        0 <= k < put.len(),
    ensures
        maps::entry(table_with(t, put), route::addr_key(put[k].listen()->0)) == Some(
            Arc::new(put[k]),
        ),
    decreases put.len(),
{
    if k < put.len() - 1 {
        let before = put.drop_last();
        assert forall|i: int| 0 <= i < before.len() implies #[trigger] before[i].listen()
            is Some by {
            assert(before[i] == put[i]);
            assert(put[i].listen() is Some);
        }
        assert forall|i: int, j: int| 0 <= i < j < before.len() implies #[trigger] before[i].listen()
            != #[trigger] before[j].listen() by {
            assert(before[i] == put[i] && before[j] == put[j]);
            assert(put[i].listen() != put[j].listen());
        }
        put_in_table(t, before, k);
        let last = put.len() - 1;
        assert(put[k].listen() is Some && put[last].listen() is Some);
        assert(put[k].listen() != put[last].listen());
        if route::addr_key(put[last].listen()->0) == route::addr_key(put[k].listen()->0) {
            route::addr_key_is_injective(put[last].listen()->0, put[k].listen()->0);
        }
    }
}

/// Once a plan was carried out, a new connection goes by the new routes: at every address the
/// table finds the route that is wanted there, and at a listener that went it finds none. What
/// stands at other addresses stays.
pub proof fn connections_follow_the_new_routes(
    t: Map<AddrKey, Arc<ServerRoute>>,
    current: Seq<SocketAddr>,
    routes: Seq<ServerRoute>,
    plan: ReconcilePlan,
    a: SocketAddr,
)
    requires
        plan.fits(current, routes),
    ensures
        maps::entry(plan.table_after(t), route::addr_key(a)) == (match wanted_at(
            routes,
            routes.len() as int,
            a,
        ) {
            Some(r) => Some(Arc::new(r)),
            None => if current.contains(a) {
                None
            } else {
                maps::entry(t, route::addr_key(a))
            },
        }),
{
    let here = |x: SocketAddr| current.contains(x);
    let elsewhere = |x: SocketAddr| !current.contains(x);
    let t1 = table_without(t, plan.remove@);
    let t2 = table_with(t1, plan.update@);
    gone_from_table(t, plan.remove@, a);
    let w = wanted_at(routes, routes.len() as int, a);
    if w is Some && !current.contains(a) {
        assert(elsewhere(a));
        let k = choose|k: int| 0 <= k < plan.add@.len() && #[trigger] plan.add@[k].listen() == Some(a);
        put_in_table(t2, plan.add@, k);
    } else {
        assert forall|i: int| 0 <= i < plan.add@.len() implies #[trigger] plan.add@[i].listen()
            != Some(a) by {
            if plan.add@[i].listen() == Some(a) {
                assert(elsewhere(a));
            }
        }
        assert(none_at(plan.add@, a));
        untouched_in_table(t2, plan.add@, a);
        if w is Some {
            assert(here(a));
            let k = choose|k: int|
                0 <= k < plan.update@.len() && #[trigger] plan.update@[k].listen() == Some(a);
            put_in_table(t1, plan.update@, k);
        } else {
            assert(none_at(plan.update@, a));
            untouched_in_table(t1, plan.update@, a);
        }
    }
}

// ---- carrying out a plan ----

impl ReconcilePlan {
    /// Every route of the plan has a listen address, and the new listeners are at addresses of
    /// their own.
    pub open spec fn wf(self) -> bool {
        &&& forall|i: int| 0 <= i < self.update@.len() ==> #[trigger] self.update@[i].listen() is Some
        &&& forall|i: int| 0 <= i < self.add@.len() ==> #[trigger] self.add@[i].listen() is Some
        &&& forall|i: int, j: int|
            0 <= i < j < self.add@.len() ==> #[trigger] self.add@[i].listen()
                != #[trigger] self.add@[j].listen()
        &&& forall|i: int, j: int|
            0 <= i < self.add@.len() && 0 <= j < self.update@.len()
                ==> #[trigger] self.add@[i].listen() != #[trigger] self.update@[j].listen()
        &&& forall|i: int, a: SocketAddr|
            0 <= i < self.add@.len() && #[trigger] self.remove@.contains(a)
                ==> #[trigger] self.add@[i].listen() != Some(a)
    }
}

/// A plan that fits some listeners and routes can be carried out.
pub proof fn fitting_plan_is_wf(
    current: Seq<SocketAddr>,
    routes: Seq<ServerRoute>,
    plan: ReconcilePlan,
)
    requires
        plan.fits(current, routes),
    ensures
        plan.wf(),
{
}

/// What is to be done next for a plan.
#[derive(Debug)]
pub enum PlanStep {
    /// The listener at this address is drained and taken away.
    Drain(SocketAddr),
    /// A listener is bound for this route, which is in the route table now.
    Bind(ServerRoute),
    /// The plan was carried out.
    Done,
    /// Another route stands where a new one was to be added. The plan goes no further.
    Refused(RouteTableError),
}

/// A plan that is being carried out on a route table: the route of a listener goes once that was
/// drained, then the other listeners get their new routes, and the new routes come last, each
/// before its listener is bound.
#[derive(Debug)]
pub struct PlanRun {
    plan: ReconcilePlan,
    drains: usize,
    updated: bool,
    added: usize,
}

/// How far a plan was carried out.
pub struct PlanProgress {
    pub plan: ReconcilePlan,
    /// How many listeners were to be drained so far. The last of them still has its route, unless
    /// the updates were made.
    pub drains: nat,
    /// The updates were made.
    pub updated: bool,
    /// How many routes were added.
    pub added: nat,
}

impl View for PlanRun {
    type V = PlanProgress;

    closed spec fn view(&self) -> PlanProgress {
        PlanProgress {
            plan: self.plan,
            drains: self.drains as nat,
            updated: self.updated,
            added: self.added as nat,
        }
    }
}

impl PlanProgress {
    /// Drains come before updates, and these before additions.
    pub open spec fn wf(self) -> bool {
        &&& self.plan.wf()
        &&& self.drains <= self.plan.remove@.len()
        &&& self.added <= self.plan.add@.len()
        &&& self.updated ==> self.drains == self.plan.remove@.len()
        &&& !self.updated ==> self.added == 0
    }

    /// The table without the route of the listener that was drained last.
    pub open spec fn cleared(self, t: Map<AddrKey, Arc<ServerRoute>>) -> Map<
        AddrKey,
        Arc<ServerRoute>,
    > {
        if !self.updated && self.drains > 0 {
            t.remove(route::addr_key(self.plan.remove@[self.drains - 1]))
        } else {
            t
        }
    }

    /// The table to which the new routes are added: the last route that had to go is gone, and the
    /// updates were made.
    pub open spec fn ready(self, t: Map<AddrKey, Arc<ServerRoute>>) -> Map<
        AddrKey,
        Arc<ServerRoute>,
    > {
        if self.updated {
            t
        } else {
            table_with(self.cleared(t), self.plan.update@)
        }
    }

    /// What a table that was `t` at the start is by now.
    pub open spec fn table(self, t: Map<AddrKey, Arc<ServerRoute>>) -> Map<
        AddrKey,
        Arc<ServerRoute>,
    > {
        if self.updated {
            table_with(
                table_with(table_without(t, self.plan.remove@), self.plan.update@),
                self.plan.add@.take(self.added as int),
            )
        } else if self.drains > 0 {
            table_without(t, self.plan.remove@.take(self.drains - 1))
        } else {
            t
        }
    }
}

impl PlanRun {
    /// A plan of which nothing was done yet.
    pub fn new(plan: ReconcilePlan) -> (r: PlanRun)
        requires
            plan.wf(),
        ensures
            r@ == (PlanProgress { plan, drains: 0, updated: false, added: 0 }),
            r@.wf(),
    {
        PlanRun { plan, drains: 0, updated: false, added: 0 }
    }

    /// Goes on with the plan, once what the step before asked for was done.
    pub fn step(&mut self, routes: &mut RouteTable) -> (r: PlanStep)
        requires
            old(self)@.wf(),
        ensures
            final(self)@.wf(),
            old(routes).wf() ==> final(routes).wf(),
            old(routes)@.dom().finite() ==> final(routes)@.dom().finite(),
            ({
                let p = old(self)@;
                if p.drains < p.plan.remove@.len() {
                    &&& r == PlanStep::Drain(p.plan.remove@[p.drains as int])
                    &&& final(self)@ == (PlanProgress { drains: p.drains + 1, ..p })
                    &&& final(routes)@ == p.cleared(old(routes)@)
                } else if p.added < p.plan.add@.len() {
                    let next = p.plan.add@[p.added as int];
                    let addr = next.listen()->0;
                    match maps::entry(p.ready(old(routes)@), route::addr_key(addr)) {
                        Some(e) => {
                            &&& r == PlanStep::Refused(
                                RouteTableError::DuplicateListen {
                                    addr,
                                    existing: e.id,
                                    incoming: next.id,
                                },
                            )
                            &&& final(self)@ == (PlanProgress { updated: true, ..p })
                            &&& final(routes)@ == p.ready(old(routes)@)
                        },
                        None => {
                            &&& r == PlanStep::Bind(next)
                            &&& final(self)@ == (PlanProgress {
                                updated: true,
                                added: p.added + 1,
                                ..p
                            })
                            &&& final(routes)@ == p.ready(old(routes)@).insert(
                                route::addr_key(addr),
                                Arc::new(next),
                            )
                        },
                    }
                } else {
                    &&& r is Done
                    &&& final(self)@ == (PlanProgress { updated: true, ..p })
                    &&& final(routes)@ == p.ready(old(routes)@)
                }
            }),
    {
        if !self.updated && self.drains > 0 {
            routes.remove(&self.plan.remove[self.drains - 1]);
        }
        if self.drains < self.plan.remove.len() {
            self.drains += 1;
            return PlanStep::Drain(self.plan.remove[self.drains - 1]);
        }
        if !self.updated {
            apply_updates(routes, &self.plan.update);
            self.updated = true;
        }
        if self.added < self.plan.add.len() {
            let route = self.plan.add[self.added].clone();
            assert(self.plan.add@[self.added as int].listen() is Some);
            return match routes.insert(route.clone()) {
                Ok(_) => {
                    self.added += 1;
                    PlanStep::Bind(route)
                },
                Err(e) => PlanStep::Refused(e),
            };
        }
        PlanStep::Done
    }
}

/// Puts each of the routes in the place of the one at its listener.
fn apply_updates(routes: &mut RouteTable, update: &Vec<ServerRoute>)
    requires
        forall|i: int| 0 <= i < update@.len() ==> #[trigger] update@[i].listen() is Some,
    ensures
        final(routes)@ == table_with(old(routes)@, update@),
        old(routes).wf() ==> final(routes).wf(),
        old(routes)@.dom().finite() ==> final(routes)@.dom().finite(),
{
    let mut i: usize = 0;
    while i < update.len()
        invariant
            i <= update@.len(),
            forall|k: int| 0 <= k < update@.len() ==> #[trigger] update@[k].listen() is Some,
            routes@ == table_with(old(routes)@, update@.take(i as int)),
            old(routes).wf() ==> routes.wf(),
            old(routes)@.dom().finite() ==> routes@.dom().finite(),
        decreases update@.len() - i,
    {
        assert(update@[i as int].listen() is Some);
        assert(update@.take(i + 1).drop_last() =~= update@.take(i as int));
        if let Ok(addr) = update[i].listen_addr() {
            let _ = apply_update(routes, &addr, update[i].clone());
        }
        i += 1;
    }
    assert(update@.take(i as int) =~= update@);
}

/// Where the next route of a plan is to be added, the table has changed in nothing since the
/// start.
proof fn next_address_is_untouched(p: PlanProgress, t: Map<AddrKey, Arc<ServerRoute>>, k: int)
    requires
        p.wf(),
        p.updated,
        p.added <= k < p.plan.add@.len(),
    ensures
        maps::entry(p.table(t), route::addr_key(p.plan.add@[k].listen()->0)) == maps::entry(
            t,
            route::addr_key(p.plan.add@[k].listen()->0),
        ),
{
    let plan = p.plan;
    assert(plan.add@[k].listen() is Some);
    let a = plan.add@[k].listen()->0;
    let t1 = table_without(t, plan.remove@);
    let t2 = table_with(t1, plan.update@);
    let put = plan.add@.take(p.added as int);
    gone_from_table(t, plan.remove@, a);
    assert(!plan.remove@.contains(a));
    assert(none_at(plan.update@, a));
    untouched_in_table(t1, plan.update@, a);
    assert forall|i: int| 0 <= i < put.len() implies #[trigger] put[i].listen() is Some
        && put[i].listen() != Some(a) by {
        assert(put[i] == plan.add@[i]);
        assert(plan.add@[i].listen() is Some);
        assert(plan.add@[i].listen() != plan.add@[k].listen());
    }
    untouched_in_table(t2, put, a);
}

/// Every step keeps to the plan: a table that nobody else changes is, after each step, what the
/// steps up to it make of the table at the start.
pub proof fn steps_follow_the_plan(p: PlanProgress, t: Map<AddrKey, Arc<ServerRoute>>)
    requires
        p.wf(),
    ensures
        p.drains < p.plan.remove@.len() ==> p.cleared(p.table(t)) == (PlanProgress {
            drains: p.drains + 1,
            ..p
        }).table(t),
        p.drains == p.plan.remove@.len() ==> p.ready(p.table(t)) == (PlanProgress {
            updated: true,
            ..p
        }).table(t),
        p.drains == p.plan.remove@.len() && p.added < p.plan.add@.len() ==> p.ready(
            p.table(t),
        ).insert(
            route::addr_key(p.plan.add@[p.added as int].listen()->0),
            Arc::new(p.plan.add@[p.added as int]),
        ) == (PlanProgress { updated: true, added: p.added + 1, ..p }).table(t),
        p.drains == p.plan.remove@.len() && p.updated && p.added == p.plan.add@.len() ==> p.table(t)
            == p.plan.table_after(t),
{
    let remove = p.plan.remove@;
    let add = p.plan.add@;
    if !p.updated && p.drains > 0 {
        let n = p.drains as int;
        assert(remove.take(n).drop_last() =~= remove.take(n - 1));
        assert(remove.take(n).last() == remove[n - 1]);
    }
    if p.drains == remove.len() {
        let base = table_with(table_without(t, remove), p.plan.update@);
        let made = PlanProgress { updated: true, ..p };
        let n = p.added as int;
        assert(made.table(t) == table_with(base, add.take(n)));
        if !p.updated {
            assert(remove.take(remove.len() as int) =~= remove);
            assert(p.cleared(p.table(t)) == table_without(t, remove));
            assert(add.take(n) =~= Seq::<ServerRoute>::empty());
        }
        assert(p.ready(p.table(t)) == made.table(t));
        if p.added < add.len() {
            assert(add.take(n + 1).drop_last() =~= add.take(n));
            assert(add.take(n + 1).last() == add[n]);
            assert(table_with(base, add.take(n + 1)) == table_with(base, add.take(n)).insert(
                route::addr_key(add[n].listen()->0),
                Arc::new(add[n]),
            ));
        }
        assert(add.take(add.len() as int) =~= add);
    } else if p.drains == 0 {
        assert(remove.take(0) =~= Seq::<SocketAddr>::empty());
    }
}

/// The address of the route at `i` is the first of the routes' that is taken in the table.
pub open spec fn first_taken(
    t: Map<AddrKey, Arc<ServerRoute>>,
    add: Seq<ServerRoute>,
    i: int,
) -> bool {
    &&& t.dom().contains(route::addr_key(add[i].listen()->0))
    &&& forall|j: int|
        0 <= j < i ==> !t.dom().contains(route::addr_key((#[trigger] add[j]).listen()->0))
}

/// Carries out a plan on a route table. It stops at the first route to be added whose address was
/// taken from the start.
pub fn apply_plan(routes: &mut RouteTable, plan: ReconcilePlan) -> (r: Result<(), RouteTableError>)
    requires
        plan.wf(),
    ensures
        old(routes).wf() ==> final(routes).wf(),
        match r {
            Ok(_) => {
                &&& final(routes)@ == plan.table_after(old(routes)@)
                &&& forall|i: int|
                    0 <= i < plan.add@.len() ==> !old(routes)@.dom().contains(
                        route::addr_key((#[trigger] plan.add@[i]).listen()->0),
                    )
            },
            Err(e) => exists|i: int|
                0 <= i < plan.add@.len() && first_taken(old(routes)@, plan.add@, i) && e
                    == (RouteTableError::DuplicateListen {
                    addr: (#[trigger] plan.add@[i]).listen()->0,
                    existing: old(routes)@[route::addr_key(plan.add@[i].listen()->0)].id,
                    incoming: plan.add@[i].id,
                }) && final(routes)@ == table_with(
                    table_with(table_without(old(routes)@, plan.remove@), plan.update@),
                    plan.add@.take(i),
                ),
        },
{
    let ghost t = routes@;
    let mut run = PlanRun::new(plan);
    loop
        invariant
            run@.wf(),
            run@.plan == plan,
            t == old(routes)@,
            routes@ == run@.table(t),
            old(routes).wf() ==> routes.wf(),
            forall|i: int|
                0 <= i < run@.added ==> !t.dom().contains(
                    route::addr_key((#[trigger] plan.add@[i]).listen()->0),
                ),
        decreases plan.remove@.len() - run@.drains + plan.add@.len() - run@.added,
    {
        let ghost p = run@;
        let ghost q = PlanProgress { updated: true, ..p };
        proof {
            steps_follow_the_plan(p, t);
            if p.drains == plan.remove@.len() {
                steps_follow_the_plan(q, t);
                if p.added < plan.add@.len() {
                    next_address_is_untouched(q, t, p.added as int);
                }
            }
        }
        match run.step(routes) {
            PlanStep::Done => {
                return Ok(());
            },
            PlanStep::Refused(e) => {
                proof {
                    let i = p.added as int;
                    assert(first_taken(t, plan.add@, i));
                    assert(plan.add@[i].listen() is Some);
                }
                return Err(e);
            },
            _ => {},
        }
    }
}

// ---- the end of a listener ----

/// What to do with a listener that is being drained.
#[derive(Clone, Copy, PartialEq, Eq, Structural, Debug, Hash)]
pub enum DrainStep {
    /// All connections have ended: the listener is taken away.
    Drained,
    /// The time is up: the listener is taken away although connections go on.
    Forced,
    /// It is looked again after `DRAIN_POLL_MS` milliseconds.
    Wait,
}

/// What to do with a listener with `active` connections, `elapsed_ms` milliseconds after it has
/// stopped to accept.
pub fn drain_step(active: u64, elapsed_ms: u64) -> (r: DrainStep)
    ensures
        r == (if active == 0 {
            DrainStep::Drained
        } else if elapsed_ms >= DRAIN_TIMEOUT_MS {
            DrainStep::Forced
        } else {
            DrainStep::Wait
        }),
        r == DrainStep::Forced <==> active > 0 && elapsed_ms >= 600 * DRAIN_POLL_MS,
        r == DrainStep::Forced <==> active > 0 && elapsed_ms >= 30000,
{
    if active == 0 {
        DrainStep::Drained
    } else if elapsed_ms >= DRAIN_TIMEOUT_MS {
        DrainStep::Forced
    } else {
        DrainStep::Wait
    }
}

// ---- what holds of a connection ----

/// The agent is asked to open the target of the route, for the route, and is told who the client
/// is.
pub proof fn agent_is_asked_for_the_target(o: OpenTcp, route: ServerRoute, peer: SocketAddr)
    requires
        opens(o, route, peer),
    ensures
        o.route_id == route.id,
        o.target_host@ == route.target_host@,
        o.target_port == route.target_port,
        o.client_addr is Some && ip::is_socket_text(peer, o.client_addr->0@),
{
}

/// A connection is passed on exactly where the access rules let it in, its node is connected, and
/// the route has fewer connections than it may have, if they are limited. It goes to the node of
/// the route and to the target of the route.
pub proof fn who_is_passed_on(
    p: Passage,
    route: Arc<ServerRoute>,
    allowed: bool,
    count: u64,
    conn: Option<quinn::Connection>,
    peer: SocketAddr,
)
    requires
        passes(p, route, allowed, count, conn, peer),
    ensures
        p is Open <==> allowed && conn is Some && (route.limits is None
            || route.limits->0.max_connections is None || count
            < route.limits->0.max_connections->0),
        p is Denied <==> !allowed,
        p is Offline <==> allowed && conn is None,
        p is AtLimit <==> allowed && conn is Some && route.limits is Some
            && route.limits->0.max_connections is Some && count
            >= route.limits->0.max_connections->0,
        p matches Passage::Open(t) ==> {
            &&& t.route == route
            &&& conn == Some(t.conn)
            &&& t.open.route_id == route.id
            &&& t.open.target_host@ == route.target_host@
            &&& t.open.target_port == route.target_port
            &&& t.guard is Some <==> route.limits is Some && route.limits->0.max_connections is Some
            &&& t.guard matches Some(g) ==> g.route() == route.id
        },
{
}

/// A connection to a route goes by the access rules for that route and its target, by the
/// connections that are open for it, and to the node that it belongs to.
pub proof fn passage_goes_by_the_route<F: Fn(&AclRule, &SocketAddr, &str, u16) -> bool>(
    t: Through,
    route: Arc<ServerRoute>,
    rules: AclSnapshot,
    limiter: ConnLimiter,
    conns: Map<u128, quinn::Connection>,
    peer: SocketAddr,
    covers: F,
)
    requires
        passage_of(Passage::Open(t), route, rules, limiter, conns, peer, covers),
    ensures
        t.route == route,
        conns.dom().contains(route.node_id.value) && t.conn == conns[route.node_id.value],
        acl_store::acl_says(
            rules,
            covers,
            route.id,
            peer,
            route.target_host@,
            route.target_port,
            true,
        ),
        route.limits matches Some(l) ==> (l.max_connections matches Some(max) ==> limiter.count(
            route.id,
        ) < max),
{
}

/// A connection takes one of those that a limited route may have only where it is passed on, and
/// never one of another route.
pub proof fn only_open_passages_take_a_share(
    before: ConnLimiter,
    after: ConnLimiter,
    p: Passage,
    id: RouteId,
)
    requires
        takes_passage(before, after, p),
    ensures
        !(p is Open) ==> after.count(id) == before.count(id),
        p matches Passage::Open(t) ==> (if t.guard is Some && t.route.id == id {
            after.count(id) == before.count(id) + 1
        } else {
            after.count(id) == before.count(id)
        }),
{
}

/// A connection that was kept out, or whose listener has no route, has found none; one without a
/// route, or for a node that is offline, counts as an error of the route, and no other does.
pub proof fn how_a_connection_counts(d: TcpDecision)
    ensures
        d.matched() <==> !(d is NoRoute) && !(d->Route_0 is Denied),
        d.route_error() <==> d is NoRoute || d->Route_0 is Offline,
{
}

/// Exactly the enabled routes of the type get a listener.
pub proof fn enabled_routes_get_a_listener(
    routes: Seq<Arc<ServerRoute>>,
    t: RouteType,
    r: Arc<ServerRoute>,
)
    ensures
        listening_spec(routes, t).contains(r) <==> exists|i: int|
            0 <= i < routes.len() && #[trigger] routes[i] == r && r.enabled && r.route_type == t,
    decreases routes.len(),
{
    if routes.len() > 0 {
        let rest = routes.drop_last();
        enabled_routes_get_a_listener(rest, t, r);
        let all = listening_spec(routes, t);
        let before = listening_spec(rest, t);
        if all.contains(r) {
            let k = choose|k: int| 0 <= k < all.len() && all[k] == r;
            if k < before.len() {
                assert(before[k] == r);
                let i = choose|i: int|
                    0 <= i < rest.len() && #[trigger] rest[i] == r && r.enabled && r.route_type
                        == t;
                assert(routes[i] == r);
            } else {
                assert(routes[routes.len() - 1] == r);
            }
        }
        if exists|i: int|
            0 <= i < routes.len() && #[trigger] routes[i] == r && r.enabled && r.route_type == t {
            let i = choose|i: int|
                0 <= i < routes.len() && #[trigger] routes[i] == r && r.enabled && r.route_type
                    == t;
            if i < rest.len() {
                assert(rest[i] == r);
                let k = choose|k: int| 0 <= k < before.len() && before[k] == r;
                assert(all[k] == r);
            } else {
                assert(all.last() == r);
            }
        }
    }
}

/// Another route comes last among those with a listener where it is enabled and of the type, and
/// changes nothing for the others.
pub proof fn another_route_listens_last(
    routes: Seq<Arc<ServerRoute>>,
    t: RouteType,
    r: Arc<ServerRoute>,
)
    ensures
        r.enabled && r.route_type == t ==> listening_spec(routes.push(r), t) == listening_spec(
            routes,
            t,
        ).push(r),
        !(r.enabled && r.route_type == t) ==> listening_spec(routes.push(r), t) == listening_spec(
            routes,
            t,
        ),
{
    assert(routes.push(r).drop_last() =~= routes);
}

/// At an address the last of the enabled TCP routes that listen there is wanted, and none where no
/// such route does.
pub proof fn last_enabled_route_is_wanted(
    routes: Seq<ServerRoute>,
    n: int,
    a: SocketAddr,
    i: int,
)
    requires
        0 <= n <= routes.len(),
        i < n,
        forall|j: int|
            0 <= j < n && j > i ==> !((#[trigger] routes[j]).enabled && routes[j].route_type
                == RouteType::Tcp && routes[j].listen() == Some(a)),
    ensures
        0 <= i && routes[i].enabled && routes[i].route_type == RouteType::Tcp && routes[i].listen()
            == Some(a) ==> wanted_at(routes, n, a) == Some(routes[i]),
        i < 0 ==> wanted_at(routes, n, a) is None,
    decreases n,
{
    if n > 0 && i < n - 1 {
        assert(!(routes[n - 1].enabled && routes[n - 1].route_type == RouteType::Tcp && routes[n
            - 1].listen() == Some(a)));
        last_enabled_route_is_wanted(routes, n - 1, a, i);
    }
}

/// There is one first route whose address is taken, its address is taken, and no address before it
/// is.
pub proof fn first_taken_is_the_first(
    t: Map<AddrKey, Arc<ServerRoute>>,
    add: Seq<ServerRoute>,
    i: int,
    j: int,
)
    requires
        0 <= i < add.len(),
        0 <= j < add.len(),
        first_taken(t, add, i),
        t.dom().contains(route::addr_key(add[j].listen()->0)),
    ensures
        t.dom().contains(route::addr_key(add[i].listen()->0)),
        i <= j,
{
}

} // verus!
