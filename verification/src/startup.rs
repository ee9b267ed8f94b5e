//! The tables that a server starts with.
use crate::config;
use crate::ip::{self, SocketAddr};
use crate::maps::{self, AddrKey};
use crate::route::{
    self, HostTable, HostTableError, RouteTable, RouteTableError, RouteType, ServerRoute,
};
use crate::text;
use std::sync::Arc;
use vstd::prelude::*;

verus! {

/// How long before its expiry a certificate is warned about, in nanoseconds: 30 days.
pub const CERT_WARN_BEFORE_NANOS: i128 = 2_592_000_000_000_000;

/// Why a server does not start.
#[derive(Debug)]
pub enum StartError {
    Host(HostTableError),
    Route(RouteTableError),
}

/// The route table of the first `n` routes: those with a listener of their own.
pub open spec fn listeners_of(routes: Seq<ServerRoute>, n: int) -> Map<
    AddrKey,
    Arc<ServerRoute>,
>
    decreases n,
{
    if n <= 0 {
        Map::empty()
    } else {
        let r = routes[n - 1];
        if !r.route_type.by_host() && r.listen() is Some {
            listeners_of(routes, n - 1).insert(route::addr_key(r.listen()->0), Arc::new(r))
        } else {
            listeners_of(routes, n - 1)
        }
    }
}

/// A host name of a host table of routes is that of one of the routes.
proof fn host_has_a_route(routes: Seq<ServerRoute>, n: int, h: Seq<char>)
    requires
        0 <= n <= routes.len(),
        route::table_of(routes, n).dom().contains(h),
    ensures
        exists|j: int|
            0 <= j < n && (#[trigger] routes[j]).enabled && routes[j].host() == Some(h)
                && route::table_of(routes, n)[h] == routes[j],
    decreases n,
{
    if n > 0 {
        let r = routes[n - 1];
        if r.enabled && r.host() == Some(h) {
            assert(routes[n - 1].enabled);
        } else {
            host_has_a_route(routes, n - 1, h);
        }
    }
}

/// A key of a route table of routes is that of one of the routes.
proof fn listener_has_a_route(routes: Seq<ServerRoute>, n: int, k: AddrKey)
    requires
        0 <= n <= routes.len(),
        listeners_of(routes, n).dom().contains(k),
    ensures
        exists|j: int|
            0 <= j < n && !(#[trigger] routes[j]).route_type.by_host() && (
            routes[j].listen() matches Some(a) && route::addr_key(a) == k)
                && listeners_of(routes, n)[k] == routes[j],
    decreases n,
{
    if n > 0 {
        let r = routes[n - 1];
        if !r.route_type.by_host() && (r.listen() matches Some(a) && route::addr_key(a) == k) {
            assert(!routes[n - 1].route_type.by_host());
        } else {
            listener_has_a_route(routes, n - 1, k);
        }
    }
}

/// Why the route at `i` finds no place in the tables of the routes before it: its listen host is
/// no IP address, or another route stands in its place.
pub open spec fn fault_at(routes: Seq<ServerRoute>, i: int, e: StartError) -> bool {
    let r = routes[i];
    match e {
        StartError::Host(HostTableError::DuplicateHostname { host, existing, incoming }) => {
            &&& r.enabled
            &&& r.host() == Some(host@)
            &&& (maps::entry(route::table_of(routes, i), host@) matches Some(o) && existing == o.id)
            &&& incoming == r.id
        },
        StartError::Route(RouteTableError::InvalidListenAddr(m)) => {
            &&& !r.route_type.by_host()
            &&& r.listen() is None
            &&& m@ == "invalid listen_host "@ + text::quoted(r.listen_host@)
        },
        StartError::Route(RouteTableError::DuplicateListen { addr, existing, incoming }) => {
            &&& !r.route_type.by_host()
            &&& r.listen() == Some(addr)
            &&& (maps::entry(listeners_of(routes, i), route::addr_key(addr)) matches Some(o)
                && existing == o.id)
            &&& incoming == r.id
        },
    }
}

/// The route at `i` finds a place in the tables of the routes before it, or needs none.
pub open spec fn placed(routes: Seq<ServerRoute>, i: int) -> bool {
    let r = routes[i];
    if r.route_type.by_host() {
        r.enabled && r.host() is Some ==> maps::entry(route::table_of(routes, i), r.host()->0)
            is None
    } else {
        r.listen() matches Some(a) && maps::entry(listeners_of(routes, i), route::addr_key(a))
            is None
    }
}

/// The tables of a configuration: the enabled HTTP and HTTPS routes by their host name, the
/// others by their listen address. They are built where every route finds its place, which in a
/// valid configuration each does; the error is that of the first one that does not.
pub fn build_tables(routes: &Vec<ServerRoute>) -> (r: Result<(RouteTable, HostTable), StartError>)
    ensures
        config::valid(routes@) ==> r is Ok,
        match r {
            Ok(t) => {
                &&& forall|i: int| 0 <= i < routes@.len() ==> #[trigger] placed(routes@, i)
                &&& t.0@ == listeners_of(routes@, routes@.len() as int)
                &&& t.1@ == route::table_of(routes@, routes@.len() as int)
                &&& t.0@.dom().finite()
                &&& t.1@.dom().finite()
                &&& t.0.wf()
                &&& t.1.wf()
            },
            Err(e) => exists|i: int|
                {
                    &&& 0 <= i < routes@.len()
                    &&& !placed(routes@, i)
                    &&& #[trigger] fault_at(routes@, i, e)
                    &&& forall|j: int| 0 <= j < i ==> #[trigger] placed(routes@, j)
                },
        },
{
    let mut by_listen = RouteTable::new();
    let mut by_host = HostTable::new();
    let mut i: usize = 0;
    while i < routes.len()
        invariant
            i <= routes@.len(),
            by_listen@ == listeners_of(routes@, i as int),
            by_host@ == route::table_of(routes@, i as int),
            by_listen@.dom().finite(),
            by_host@.dom().finite(),
            by_listen.wf(),
            by_host.wf(),
            forall|j: int| 0 <= j < i ==> #[trigger] placed(routes@, j),
        decreases routes@.len() - i,
    {
        let one = &routes[i];
        if one.route_type.is_by_host() {
            if one.enabled {
                if let Err(e) = by_host.insert(one.clone()) {
                    proof {
                        let h = routes@[i as int].host()->0;
                        host_has_a_route(routes@, i as int, h);
                        let j = choose|j: int|
                            0 <= j < i && (#[trigger] routes@[j]).enabled && routes@[j].host()
                                == Some(h) && route::table_of(routes@, i as int)[h] == routes@[j];
                        assert(config::clash(routes@[j], routes@[i as int]));
                    }
                    let err = StartError::Host(e);
                    assert(fault_at(routes@, i as int, err));
                    return Err(err);
                }
            }
        } else {
            if let Err(e) = by_listen.insert(one.clone()) {
                proof {
                    let r = routes@[i as int];
                    if r.listen() is Some {
                        let k = route::addr_key(r.listen()->0);
                        listener_has_a_route(routes@, i as int, k);
                        let j = choose|j: int|
                            0 <= j < i && !(#[trigger] routes@[j]).route_type.by_host() && (
                            routes@[j].listen() matches Some(a) && route::addr_key(a) == k)
                                && listeners_of(routes@, i as int)[k] == routes@[j];
                        route::addr_key_is_injective(r.listen()->0, routes@[j].listen()->0);
                        assert(config::clash(routes@[j], r));
                    } else {
                        assert(!config::reachable(routes@[i as int]));
                    }
                }
                let err = StartError::Route(e);
                assert(fault_at(routes@, i as int, err));
                return Err(err);
            }
        }
        assert(placed(routes@, i as int));
        i += 1;
    }
    Ok((by_listen, by_host))
}

/// In the tables of a valid configuration every enabled route is found in its own place: by its
/// host name in the one, by its listen address in the other.
pub proof fn every_route_is_found(routes: Seq<ServerRoute>, i: int)
    requires
        config::valid(routes),
        0 <= i < routes.len(),
        routes[i].enabled,
    ensures
        routes[i].route_type.by_host() ==> maps::entry(
            route::table_of(routes, routes.len() as int),
            routes[i].host()->0,
        ) == Some(Arc::new(routes[i])),
        !routes[i].route_type.by_host() ==> maps::entry(
            listeners_of(routes, routes.len() as int),
            route::addr_key(routes[i].listen()->0),
        ) == Some(Arc::new(routes[i])),
{
    assert(config::reachable(routes[i]));
    route_stays_found(routes, i, routes.len() as int);
}

proof fn route_stays_found(routes: Seq<ServerRoute>, i: int, n: int)
    requires
        config::valid(routes),
        0 <= i < n <= routes.len(),
        routes[i].enabled,
        config::reachable(routes[i]),
    ensures
        routes[i].route_type.by_host() ==> maps::entry(
            route::table_of(routes, n),
            routes[i].host()->0,
        ) == Some(Arc::new(routes[i])),
        !routes[i].route_type.by_host() ==> maps::entry(
            listeners_of(routes, n),
            route::addr_key(routes[i].listen()->0),
        ) == Some(Arc::new(routes[i])),
    decreases n,
{
    if i < n - 1 {
        route_stays_found(routes, i, n - 1);
        let r = routes[n - 1];
        assert(!config::clash(routes[i], r));
        if !r.route_type.by_host() && r.listen() is Some && !routes[i].route_type.by_host() {
            if route::addr_key(r.listen()->0) == route::addr_key(routes[i].listen()->0) {
                route::addr_key_is_injective(r.listen()->0, routes[i].listen()->0);
            }
        }
    }
}

/// The route table that a server starts with holds exactly the TCP and UDP routes that listen at an
/// address, each under that address.
pub proof fn start_table_holds_the_listeners(routes: Seq<ServerRoute>, a: SocketAddr)
    requires
        config::valid(routes),
    ensures
        maps::entry(listeners_of(routes, routes.len() as int), route::addr_key(a)) is Some
            <==> exists|i: int|
            0 <= i < routes.len() && ((#[trigger] routes[i]).route_type == RouteType::Tcp
                || routes[i].route_type == RouteType::Udp) && routes[i].listen() == Some(a),
        maps::entry(listeners_of(routes, routes.len() as int), route::addr_key(a)) matches Some(r)
            ==> r.listen() == Some(a) && (r.route_type == RouteType::Tcp || r.route_type
            == RouteType::Udp),
{
    let n = routes.len() as int;
    let k = route::addr_key(a);
    if listeners_of(routes, n).dom().contains(k) {
        listener_has_a_route(routes, n, k);
        let j = choose|j: int|
            0 <= j < n && !(#[trigger] routes[j]).route_type.by_host() && (
            routes[j].listen() matches Some(b) && route::addr_key(b) == k)
                && listeners_of(routes, n)[k] == routes[j];
        route::addr_key_is_injective(routes[j].listen()->0, a);
        assert(routes[j].route_type == RouteType::Tcp || routes[j].route_type == RouteType::Udp);
    }
    if exists|i: int|
        0 <= i < routes.len() && ((#[trigger] routes[i]).route_type == RouteType::Tcp
            || routes[i].route_type == RouteType::Udp) && routes[i].listen() == Some(a) {
        let i = choose|i: int|
            0 <= i < routes.len() && ((#[trigger] routes[i]).route_type == RouteType::Tcp
                || routes[i].route_type == RouteType::Udp) && routes[i].listen() == Some(a);
        listener_stays(routes, i, n);
    }
}

proof fn listener_stays(routes: Seq<ServerRoute>, i: int, n: int)
    requires
        0 <= i < n <= routes.len(),
        routes[i].route_type == RouteType::Tcp || routes[i].route_type == RouteType::Udp,
        routes[i].listen() is Some,
    ensures
        listeners_of(routes, n).dom().contains(route::addr_key(routes[i].listen()->0)),
    decreases n,
{
    if i < n - 1 {
        listener_stays(routes, i, n - 1);
    }
}

/// A server does not start for one of two reasons: a listen host that is no address, or a route
/// whose place another one has; and the error names the routes.
pub proof fn why_a_server_does_not_start(routes: Seq<ServerRoute>, i: int, e: StartError)
    requires
        0 <= i < routes.len(),
        fault_at(routes, i, e),
    ensures
        e matches StartError::Route(RouteTableError::InvalidListenAddr(_)) ==> ip::ip_of(
            routes[i].listen_host@,
        ) is None,
        e matches StartError::Route(RouteTableError::DuplicateListen { addr, existing, incoming })
            ==> incoming == routes[i].id && routes[i].listen() == Some(addr) && exists|j: int|
            0 <= j < i && (#[trigger] routes[j]).id == existing && routes[j].listen() == Some(addr),
        e matches StartError::Host(HostTableError::DuplicateHostname { host, existing, incoming })
            ==> incoming == routes[i].id && routes[i].host() == Some(host@) && exists|j: int|
            0 <= j < i && (#[trigger] routes[j]).id == existing && routes[j].host() == Some(host@),
{
    match e {
        StartError::Route(RouteTableError::DuplicateListen { addr, existing, incoming }) => {
            let k = route::addr_key(addr);
            listener_has_a_route(routes, i, k);
            let j = choose|j: int|
                0 <= j < i && !(#[trigger] routes[j]).route_type.by_host() && (
                routes[j].listen() matches Some(b) && route::addr_key(b) == k)
                    && listeners_of(routes, i)[k] == routes[j];
            route::addr_key_is_injective(routes[j].listen()->0, addr);
            assert(routes[j].id == existing);
        },
        StartError::Host(HostTableError::DuplicateHostname { host, existing, incoming }) => {
            host_has_a_route(routes, i, host@);
            let j = choose|j: int|
                0 <= j < i && (#[trigger] routes[j]).enabled && routes[j].host() == Some(host@)
                    && route::table_of(routes, i)[host@] == routes[j];
            assert(routes[j].id == existing);
        },
        _ => {},
    }
}

/// A certificate is warned about from 30 days before its expiry on.
pub proof fn warnings_come_in_time(now: int, expires_at: int)
    ensures
        expires_at <= now + CERT_WARN_BEFORE_NANOS <==> (expires_at - now) <= 30 * 24 * 3600
            * 1_000_000_000,
{
}

} // verus!
