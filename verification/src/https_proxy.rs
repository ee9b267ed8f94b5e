//! The HTTPS entrance: the server name of a connection decides whether its TLS is ended here or
//! passed through.
use crate::acl_store::{AclRule, AclStore};
use crate::conn_limiter::ConnLimiter;
use crate::conn_registry::ConnRegistry;
use crate::ids::RouteId;
use crate::ip::SocketAddr;
use crate::maps;
use crate::route::{HostTable, RouteType, ServerRoute};
use crate::tcp_proxy::{self, OpenEvent, Passage, pass_through};
use crate::text;
use std::sync::Arc;
use vstd::prelude::*;

verus! {

/// What becomes of a TLS connection.
pub enum TlsDecision {
    /// TLS is ended here, and the request in it goes by its host.
    Terminate,
    /// The TLS is passed through, if the route lets it.
    Passthrough(Passage),
}

/// The route to which the TLS of a connection with the server name `sni` is passed through.
pub open spec fn passthrough_route(
    hosts: Map<Seq<char>, Arc<ServerRoute>>,
    sni: Option<Seq<char>>,
) -> Option<Arc<ServerRoute>> {
    match sni {
        Some(name) => match maps::entry(hosts, text::ascii_lower(name)) {
            Some(route) => if route.passthrough() {
                Some(route)
            } else {
                None
            },
            None => None,
        },
        None => None,
    }
}

/// What becomes of a TLS connection from `peer` with the server name `sni`.
pub fn route_tls<F: Fn(&AclRule, &SocketAddr, &str, u16) -> bool>(
    sni: Option<String>,
    host_table: &HostTable,
    acl: &AclStore,
    conns: &ConnRegistry,
    limiter: &mut ConnLimiter,
    peer: SocketAddr,
    covers: F,
) -> (d: TlsDecision)
    requires
        forall|rule: &AclRule, s: &SocketAddr, host: &str, port: u16|
            call_requires(covers, (rule, s, host, port)),
    ensures
        match passthrough_route(host_table@, text::opt_view(sni)) {
            None => d is Terminate && forall|id: RouteId| #[trigger]
                final(limiter).count(id) == old(limiter).count(id),
            Some(route) => {
                &&& d matches TlsDecision::Passthrough(p)
                &&& tcp_proxy::passage_of(p, route, acl@, *old(limiter), conns@, peer, covers)
                &&& tcp_proxy::takes_passage(*old(limiter), *final(limiter), p)
            },
        },
{
    let name = match sni {
        Some(s) => s,
        None => {
            return TlsDecision::Terminate;
        },
    };
    let route = match host_table.lookup(name.as_str()) {
        Some(r) => r,
        None => {
            return TlsDecision::Terminate;
        },
    };
    if !route.tls_passthrough() {
        return TlsDecision::Terminate;
    }
    TlsDecision::Passthrough(pass_through(route, acl, conns, limiter, peer, covers))
}

/// Whether the bytes of a passed-through connection are copied, once the agent was asked to open
/// its target: only if the agent has opened it.
pub fn forward_passthrough(ev: OpenEvent) -> (r: bool)
    ensures
        r == (ev is Opened),
{
    match ev {
        OpenEvent::Opened => true,
        _ => false,
    }
}

/// TLS is passed through to a route only where the client names a server that the route has, the
/// route carries HTTPS and its TLS mode is `passthrough`; and then it always is.
pub proof fn tls_is_passed_to_the_named_route(
    hosts: Map<Seq<char>, Arc<ServerRoute>>,
    sni: Option<Seq<char>>,
)
    ensures
        passthrough_route(hosts, sni) is Some <==> {
            &&& sni is Some
            &&& hosts.dom().contains(text::ascii_lower(sni->0))
            &&& hosts[text::ascii_lower(sni->0)].route_type == RouteType::Https
            &&& hosts[text::ascii_lower(sni->0)].tls_mode is Some
            &&& hosts[text::ascii_lower(sni->0)].tls_mode->0@ == "passthrough"@
        },
        passthrough_route(hosts, sni) matches Some(route) ==> route == hosts[text::ascii_lower(
            sni->0,
        )],
{
}

} // verus!
