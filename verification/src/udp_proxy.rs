//! The UDP entrance: each client of a route has a logical session, and each address only so many.
use crate::conn_registry::ConnRegistry;
use crate::ids::{NodeId, RouteId};
use crate::ip::{self, IpAddr, SocketAddr};
use crate::maps::{
    self, AddrKey, ClientKey, SourceMap, UdpIdMap, UdpKeyMap, source_map, source_map_drop_idle, source_map_get,
    source_map_insert, udp_id_map, udp_id_map_get, udp_id_map_insert, udp_id_map_remove,
    udp_id_map_values, udp_key_map, udp_key_map_get, udp_key_map_insert, udp_key_map_len,
    udp_key_map_remove,
};
use crate::route::{self, RouteTable, ServerRoute};
use std::sync::Arc;
use vstd::prelude::*;

verus! {

/// How long a session may be idle, in seconds.
pub const UDP_IDLE_TIMEOUT_SECS: u64 = 60;

/// How often idle sessions are looked for, in seconds.
pub const REAP_INTERVAL_SECS: u64 = 10;

/// How large the payload of a packet may be.
pub const MAX_UDP_PAYLOAD: usize = 1200;

/// How many bytes stand before the payload in a datagram to an agent.
pub const UDP_DATAGRAM_HEADER_LEN: usize = 10;

/// How large the payload of a packet may be, where the other side takes datagrams of `peer_max`
/// bytes. Where it takes none, no payload is small enough.
pub fn max_payload(peer_max: Option<usize>) -> (r: usize)
    ensures
        r == (match peer_max {
            None => 0int,
            Some(m) => if m < UDP_DATAGRAM_HEADER_LEN {
                0
            } else if m - UDP_DATAGRAM_HEADER_LEN > MAX_UDP_PAYLOAD {
                MAX_UDP_PAYLOAD as int
            } else {
                m - UDP_DATAGRAM_HEADER_LEN
            },
        }),
        r <= 1200,
        peer_max matches Some(m) ==> r + 10 <= m || r == 0,
        peer_max matches Some(m) ==> (m >= 1210 ==> r == 1200),
        peer_max matches Some(m) ==> (10 <= m < 1210 ==> r == m - 10),
{
    match peer_max {
        None => 0,
        Some(m) => {
            let room: usize = m.saturating_sub(UDP_DATAGRAM_HEADER_LEN);
            if room > MAX_UDP_PAYLOAD {
                MAX_UDP_PAYLOAD
            } else {
                room
            }
        },
    }
}

/// A packet of `len` bytes is small enough, where the other side takes datagrams of `peer_max`
/// bytes.
pub open spec fn fits(len: usize, peer_max: Option<usize>) -> bool {
    match peer_max {
        None => len == 0,
        Some(m) => len <= MAX_UDP_PAYLOAD && (len == 0 || len + UDP_DATAGRAM_HEADER_LEN <= m),
    }
}

/// What each client address may do.
#[derive(Clone, Copy, PartialEq, Eq, Structural, Debug, Hash)]
pub struct UdpRateLimits {
    /// How many sessions it may have at once.
    pub max_sessions_per_ip: u32,
    /// How many packets it may send in a second.
    pub max_packets_per_sec: u64,
    /// How many bytes it may send in a second.
    pub max_bytes_per_sec: u64,
}

impl Default for UdpRateLimits {
    fn default() -> (r: UdpRateLimits)
        ensures
            r == (UdpRateLimits {
                max_sessions_per_ip: 64,
                max_packets_per_sec: 1000,
                max_bytes_per_sec: 1000000,
            }),
    {
        UdpRateLimits {
            max_sessions_per_ip: 64,
            max_packets_per_sec: 1000,
            max_bytes_per_sec: 1000000,
        }
    }
}

/// The logical session of a client with a route.
#[derive(Clone, Copy, PartialEq, Eq, Structural, Debug, Hash)]
pub struct UdpSession {
    pub session_id: u64,
    pub route_id: RouteId,
    pub node_id: NodeId,
    pub client: SocketAddr,
    /// When a packet last passed, on a clock that does not go back.
    pub last_active: u64,
}

/// The key of an address.
pub open spec fn ip_key(a: IpAddr) -> (bool, u128) {
    match a {
        IpAddr::V4(v) => (false, v as u128),
        IpAddr::V6(v) => (true, v),
    }
}

/// The key of a client of a route.
pub open spec fn session_key(client: SocketAddr, route: RouteId) -> ClientKey {
    let (six, bits, port, flowinfo, scope_id) = route::addr_key(client);
    (six, bits, port, flowinfo, scope_id, route.value)
}

/// Different clients of a route have different keys, and so has a client of different routes: two
/// addresses that differ in their scope alone are two clients.
pub proof fn session_key_is_injective(a: SocketAddr, r: RouteId, b: SocketAddr, s: RouteId)
    requires
        session_key(a, r) == session_key(b, s),
    ensures
        a == b,
        r == s,
{
    route::addr_key_is_injective(a, b);
}

fn key_of_ip(a: IpAddr) -> (k: (bool, u128))
    ensures
        k == ip_key(a),
{
    match a {
        IpAddr::V4(v) => (false, v as u128),
        IpAddr::V6(v) => (true, v),
    }
}

fn key_of(client: SocketAddr, route: RouteId) -> (k: ClientKey)
    ensures
        k == session_key(client, route),
{
    let (six, bits, port, flowinfo, scope_id) = route::key_of(&client);
    (six, bits, port, flowinfo, scope_id, route.value)
}

/// Whether a client address with so many sessions is kept in mind.
pub(crate) fn has_sessions(n: u32) -> (r: bool)
    ensures
        r == (n > 0),
{
    n > 0
}

/// What an agent is told when a session is opened.
#[derive(Debug)]
pub struct UdpOpen {
    pub node_id: NodeId,
    pub route_id: RouteId,
    pub udp_session_id: u64,
    pub client_addr: String,
}

/// What an agent is told when a session is closed.
#[derive(Clone, Copy, PartialEq, Eq, Structural, Debug, Hash)]
pub struct UdpClose {
    pub node_id: NodeId,
    pub udp_session_id: u64,
}

/// What becomes of a packet before its client's rates are looked at.
#[derive(Clone, Copy, PartialEq, Eq, Structural, Debug, Hash)]
pub enum Offer {
    /// It is too large, and dropped.
    TooLarge,
    /// Its address has all the sessions that it may have, and it belongs to none: it is dropped.
    TooManySessions,
    /// The rates of its client decide.
    AskRates,
}

/// What becomes of a packet once its client's rates were looked at.
#[derive(Debug)]
pub enum Packet {
    /// Its client sends too much: it is dropped.
    TooFast,
    /// No other session can be opened: it is dropped.
    NoRoom,
    /// It goes to the agent under this session. Where the session is new, the agent is told of it
    /// first.
    Send { session_id: u64, open: Option<UdpOpen> },
}

/// The sessions of all clients.
pub struct UdpProxy {
    sessions: UdpKeyMap,
    by_id: UdpIdMap,
    next_session_id: u64,
    dropped_oversized: u64,
    dropped_rate_limited: u64,
    dropped_session_limited: u64,
    rate_limits: UdpRateLimits,
    sources: SourceMap,
    idle_timeout: u64,
}

/// What is known of the sessions.
#[verifier::ext_equal]
pub struct UdpState {
    pub sessions: Map<ClientKey, u64>,
    pub by_id: Map<u64, UdpSession>,
    pub sources: Map<(bool, u128), u32>,
    pub next_session_id: u64,
    pub dropped_oversized: u64,
    pub dropped_rate_limited: u64,
    pub dropped_session_limited: u64,
    pub rate_limits: UdpRateLimits,
    pub idle_timeout: u64,
}

/// The ids of the sessions of the clients at the address `ip`.
pub open spec fn sessions_from(by_id: Map<u64, UdpSession>, ip: (bool, u128)) -> Set<u64> {
    by_id.dom().filter(|id: u64| ip_key(by_id[id].client.ip()) == ip)
}

impl UdpState {
    /// The number of sessions on record for the address `ip`.
    pub open spec fn count(self, ip: (bool, u128)) -> u32 {
        match maps::entry(self.sources, ip) {
            Some(n) => n,
            None => 0,
        }
    }

    /// The session of a client with a route.
    pub open spec fn session_of(self, client: SocketAddr, route: RouteId) -> Option<UdpSession> {
        match maps::entry(self.sessions, session_key(client, route)) {
            Some(id) => maps::entry(self.by_id, id),
            None => None,
        }
    }

    /// Each client has one session with a route, found by the client and by its id; ids are given
    /// once; and the number on record for an address is that of the sessions from it.
    pub open spec fn wf(self) -> bool {
        &&& self.by_id.dom().finite()
        &&& forall|k: ClientKey| #[trigger]
            self.sessions.dom().contains(k) ==> self.by_id.dom().contains(self.sessions[k])
                && session_key(
                self.by_id[self.sessions[k]].client,
                self.by_id[self.sessions[k]].route_id,
            ) == k
        &&& forall|id: u64| #[trigger]
            self.by_id.dom().contains(id) ==> {
                &&& self.by_id[id].session_id == id
                &&& id < self.next_session_id
                &&& self.sessions.dom().contains(
                    session_key(self.by_id[id].client, self.by_id[id].route_id),
                )
                &&& self.sessions[session_key(self.by_id[id].client, self.by_id[id].route_id)]
                    == id
            }
        &&& forall|ip: (bool, u128)| #[trigger]
            self.count(ip) == sessions_from(self.by_id, ip).len()
    }

    /// No address has more sessions than it may have.
    pub open spec fn within_limit(self) -> bool {
        forall|ip: (bool, u128)| #[trigger]
            sessions_from(self.by_id, ip).len() <= self.rate_limits.max_sessions_per_ip
    }

    /// A packet of the client may pass as far as the number of sessions goes: it belongs to a
    /// session, or its address may have another one.
    pub open spec fn may_open(self, client: SocketAddr, route: RouteId) -> bool {
        self.sessions.dom().contains(session_key(client, route)) || self.count(ip_key(client.ip()))
            < self.rate_limits.max_sessions_per_ip
    }

    /// What becomes of a packet of `len` bytes from a client before its rates are looked at,
    /// where the agent takes datagrams of `peer_max` bytes.
    pub open spec fn offered(
        self,
        client: SocketAddr,
        route: RouteId,
        len: usize,
        peer_max: Option<usize>,
    ) -> Offer {
        if !fits(len, peer_max) {
            Offer::TooLarge
        } else if !self.may_open(client, route) {
            Offer::TooManySessions
        } else {
            Offer::AskRates
        }
    }

    /// Another session can be opened for a client at `ip`: there are ids left, and its sessions
    /// can be counted.
    pub open spec fn room(self, ip: IpAddr) -> bool {
        self.next_session_id < u64::MAX && self.count(ip_key(ip)) < u32::MAX
    }

    /// The session has been idle for longer than sessions may be at `now`.
    pub open spec fn expired(self, s: UdpSession, now: u64) -> bool {
        now > s.last_active && now - s.last_active > self.idle_timeout
    }
}

impl View for UdpProxy {
    type V = UdpState;

    closed spec fn view(&self) -> UdpState {
        UdpState {
            sessions: maps::udp_key_entries(self.sessions),
            by_id: maps::udp_id_entries(self.by_id),
            sources: maps::source_entries(self.sources),
            next_session_id: self.next_session_id,
            dropped_oversized: self.dropped_oversized,
            dropped_rate_limited: self.dropped_rate_limited,
            dropped_session_limited: self.dropped_session_limited,
            rate_limits: self.rate_limits,
            idle_timeout: self.idle_timeout,
        }
    }
}

proof fn count_after_open(by_id: Map<u64, UdpSession>, s: UdpSession, ip: (bool, u128))
    requires
        by_id.dom().finite(),
        !by_id.dom().contains(s.session_id),
    ensures
        sessions_from(by_id.insert(s.session_id, s), ip).len() == sessions_from(by_id, ip).len() + (
        if ip_key(s.client.ip()) == ip {
            1int
        } else {
            0int
        }),
{
    let after = by_id.insert(s.session_id, s);
    let a = sessions_from(by_id, ip);
    let b = sessions_from(after, ip);
    assert(a.finite());
    if ip_key(s.client.ip()) == ip {
        assert(b =~= a.insert(s.session_id));
    } else {
        assert(b =~= a);
    }
}

proof fn count_after_close(by_id: Map<u64, UdpSession>, id: u64, ip: (bool, u128))
    requires
        by_id.dom().finite(),
        by_id.dom().contains(id),
    ensures
        sessions_from(by_id.remove(id), ip).len() == sessions_from(by_id, ip).len() - (if ip_key(
            by_id[id].client.ip(),
        ) == ip {
            1int
        } else {
            0int
        }),
{
    let after = by_id.remove(id);
    let a = sessions_from(by_id, ip);
    let b = sessions_from(after, ip);
    assert(a.finite());
    if ip_key(by_id[id].client.ip()) == ip {
        assert(b =~= a.remove(id));
        assert(a.contains(id));
    } else {
        assert(b =~= a);
    }
}

proof fn count_after_touch(by_id: Map<u64, UdpSession>, s: UdpSession, ip: (bool, u128))
    requires
        by_id.dom().contains(s.session_id),
        by_id[s.session_id].client == s.client,
    ensures
        sessions_from(by_id.insert(s.session_id, s), ip) == sessions_from(by_id, ip),
{
    assert(sessions_from(by_id.insert(s.session_id, s), ip) =~= sessions_from(by_id, ip));
}

/// What is counted of dropped packets has no part in whether the sessions are in order.
proof fn counting_keeps_wf(st: UdpState, t: UdpState)
    requires
        st.wf(),
        t == (UdpState {
            dropped_oversized: t.dropped_oversized,
            dropped_rate_limited: t.dropped_rate_limited,
            dropped_session_limited: t.dropped_session_limited,
            ..st
        }),
    ensures
        t.wf(),
{
    assert forall|ip: (bool, u128)| #[trigger] t.count(ip) == sessions_from(t.by_id, ip).len() by {
        assert(st.count(ip) == sessions_from(st.by_id, ip).len());
    }
    assert forall|k: ClientKey| #[trigger] t.sessions.dom().contains(k) implies {
        &&& t.by_id.dom().contains(t.sessions[k])
        &&& session_key(t.by_id[t.sessions[k]].client, t.by_id[t.sessions[k]].route_id) == k
    } by {
        assert(st.sessions.dom().contains(k));
    }
    assert forall|x: u64| #[trigger] t.by_id.dom().contains(x) implies {
        &&& t.by_id[x].session_id == x
        &&& x < t.next_session_id
        &&& t.sessions.dom().contains(session_key(t.by_id[x].client, t.by_id[x].route_id))
        &&& t.sessions[session_key(t.by_id[x].client, t.by_id[x].route_id)] == x
    } by {
        assert(st.by_id.dom().contains(x));
    }
}

impl UdpProxy {
    /// No sessions. A session may be idle for `idle_timeout`, in the unit of the moments that the
    /// other calls are given.
    pub fn new(idle_timeout: u64, rate_limits: UdpRateLimits) -> (r: UdpProxy)
        ensures
            r@ == (UdpState {
                sessions: Map::empty(),
                by_id: Map::empty(),
                sources: Map::empty(),
                next_session_id: 0,
                dropped_oversized: 0,
                dropped_rate_limited: 0,
                dropped_session_limited: 0,
                rate_limits,
                idle_timeout,
            }),
            r@.wf(),
            r@.within_limit(),
    {
        let r = UdpProxy {
            sessions: udp_key_map(),
            by_id: udp_id_map(),
            next_session_id: 0,
            dropped_oversized: 0,
            dropped_rate_limited: 0,
            dropped_session_limited: 0,
            rate_limits,
            sources: source_map(),
            idle_timeout,
        };
        assert forall|ip: (bool, u128)| #[trigger] r@.count(ip) == sessions_from(
            r@.by_id,
            ip,
        ).len() by {
            assert(sessions_from(r@.by_id, ip) =~= Set::<u64>::empty());
        }
        assert forall|ip: (bool, u128)| #[trigger] sessions_from(r@.by_id, ip).len() == 0 by {
            assert(sessions_from(r@.by_id, ip) =~= Set::<u64>::empty());
        }
        r
    }

    /// Whether a packet of `len` bytes fits, where the agent takes datagrams of `peer_max` bytes.
    /// One that does not is counted.
    pub fn check_size(&mut self, len: usize, peer_max: Option<usize>) -> (r: bool)
        ensures
            old(self)@.wf() ==> final(self)@.wf(),
            r == fits(len, peer_max),
            final(self)@ == (if r {
                old(self)@
            } else {
                UdpState {
                    dropped_oversized: old(self)@.dropped_oversized.wrapping_add(1),
                    ..old(self)@
                }
            }),
    {
        if len > max_payload(peer_max) {
            self.dropped_oversized = self.dropped_oversized.wrapping_add(1);
            proof {
                if old(self)@.wf() {
                    counting_keeps_wf(old(self)@, self@);
                }
            }
            return false;
        }
        true
    }

    /// Whether a packet of a client may pass as far as the number of sessions goes. One that may
    /// not is counted. Whether its rate lets it pass has to be asked next.
    pub fn admit_packet(&mut self, route_id: RouteId, client: SocketAddr) -> (r: bool)
        ensures
            old(self)@.wf() ==> final(self)@.wf(),
            r == old(self)@.may_open(client, route_id),
            final(self)@ == (if r {
                old(self)@
            } else {
                UdpState {
                    dropped_session_limited: old(self)@.dropped_session_limited.wrapping_add(1),
                    ..old(self)@
                }
            }),
    {
        if udp_key_map_get(&self.sessions, key_of(client, route_id)).is_some() {
            return true;
        }
        let n: u32 = match source_map_get(&self.sources, key_of_ip(client.ip())) {
            Some(n) => n,
            None => 0,
        };
        if n >= self.rate_limits.max_sessions_per_ip {
            self.dropped_session_limited = self.dropped_session_limited.wrapping_add(1);
            proof {
                if old(self)@.wf() {
                    counting_keeps_wf(old(self)@, self@);
                }
            }
            return false;
        }
        true
    }

    /// Whether a packet passes, where its client keeps to the rate of packets (`packets_ok`) and
    /// of bytes (`bytes_ok`). One that does not is counted.
    pub fn rate_checked(&mut self, packets_ok: bool, bytes_ok: bool) -> (r: bool)
        ensures
            old(self)@.wf() ==> final(self)@.wf(),
            r == (packets_ok && bytes_ok),
            final(self)@ == (if r {
                old(self)@
            } else {
                UdpState {
                    dropped_rate_limited: old(self)@.dropped_rate_limited.wrapping_add(1),
                    ..old(self)@
                }
            }),
    {
        if !packets_ok || !bytes_ok {
            self.dropped_rate_limited = self.dropped_rate_limited.wrapping_add(1);
            proof {
                if old(self)@.wf() {
                    counting_keeps_wf(old(self)@, self@);
                }
            }
            return false;
        }
        true
    }

    /// Whether another session can be opened for a client at `ip`.
    pub fn has_room(&self, ip: IpAddr) -> (r: bool)
        ensures
            r == self@.room(ip),
    {
        let n: u32 = match source_map_get(&self.sources, key_of_ip(ip)) {
            Some(n) => n,
            None => 0,
        };
        self.next_session_id < u64::MAX && n < u32::MAX
    }

    /// The session of a client with a route. Where there is none, one is opened at `now`, and the
    /// agent has to be told.
    pub fn get_or_create_session(&mut self, route: &ServerRoute, client: SocketAddr, now: u64) -> (r:
        (u64, Option<UdpOpen>))
        requires
            old(self)@.wf(),
            old(self)@.session_of(client, route.id) is None ==> old(self)@.room(client.ip()),
        ensures
            final(self)@.wf(),
            match old(self)@.session_of(client, route.id) {
                Some(s) => r.0 == s.session_id && r.1 is None && final(self)@ == old(self)@,
                None => {
                    &&& r.0 == old(self)@.next_session_id
                    &&& r.1 matches Some(o)
                    &&& o.node_id == route.node_id
                    &&& o.route_id == route.id
                    &&& o.udp_session_id == r.0
                    &&& ip::is_socket_text(client, o.client_addr@)
                    &&& final(self)@ == old(self)@.opened(
                        UdpSession {
                            session_id: r.0,
                            route_id: route.id,
                            node_id: route.node_id,
                            client,
                            last_active: now,
                        },
                    )
                },
            },
    {
        let key = key_of(client, route.id);
        if let Some(id) = udp_key_map_get(&self.sessions, key) {
            return (id, None);
        }
        let id: u64 = self.next_session_id;
        let s = UdpSession {
            session_id: id,
            route_id: route.id,
            node_id: route.node_id,
            client,
            last_active: now,
        };
        self.next_session_id = id + 1;
        udp_key_map_insert(&mut self.sessions, key, id);
        udp_id_map_insert(&mut self.by_id, id, s);
        let ipk = key_of_ip(client.ip());
        let n: u32 = match source_map_get(&self.sources, ipk) {
            Some(n) => n,
            None => 0,
        };
        source_map_insert(&mut self.sources, ipk, n + 1);
        proof {
            opening_keeps_wf(old(self)@, s);
        }
        (
            id,
            Some(
                UdpOpen {
                    node_id: route.node_id,
                    route_id: route.id,
                    udp_session_id: id,
                    client_addr: client.to_text(),
                },
            ),
        )
    }

    /// Takes a packet of `len` bytes from a client of a route, up to the question whether its
    /// client keeps to its rates. What is dropped for its size takes nothing from the rates.
    pub fn offer_packet(
        &mut self,
        route_id: RouteId,
        client: SocketAddr,
        len: usize,
        peer_max: Option<usize>,
    ) -> (r: Offer)
        ensures
            old(self)@.wf() ==> final(self)@.wf(),
            r == old(self)@.offered(client, route_id, len, peer_max),
            final(self)@ == (match r {
                Offer::TooLarge => UdpState {
                    dropped_oversized: old(self)@.dropped_oversized.wrapping_add(1),
                    ..old(self)@
                },
                Offer::TooManySessions => UdpState {
                    dropped_session_limited: old(self)@.dropped_session_limited.wrapping_add(1),
                    ..old(self)@
                },
                Offer::AskRates => old(self)@,
            }),
    {
        if !self.check_size(len, peer_max) {
            return Offer::TooLarge;
        }
        if !self.admit_packet(route_id, client) {
            return Offer::TooManySessions;
        }
        Offer::AskRates
    }

    /// Takes a packet that was offered, where its client keeps to the rate of packets
    /// (`packets_ok`) and of bytes (`bytes_ok`), or not. Only one that passes opens a session.
    pub fn take_packet(
        &mut self,
        route: &ServerRoute,
        client: SocketAddr,
        packets_ok: bool,
        bytes_ok: bool,
        now: u64,
    ) -> (r: Packet)
        requires
            old(self)@.wf(),
        ensures
            final(self)@.wf(),
            packets_ok && bytes_ok && old(self)@.next_session_id < 0xffff_ffff_ffff_ffff
                && sessions_from(old(self)@.by_id, ip_key(client.ip())).len() < 0xffff_ffff ==> r
                is Send,
            if !packets_ok || !bytes_ok {
                r == Packet::TooFast && final(self)@ == (UdpState {
                    dropped_rate_limited: old(self)@.dropped_rate_limited.wrapping_add(1),
                    ..old(self)@
                })
            } else {
                match old(self)@.session_of(client, route.id) {
                    Some(s) => r == (Packet::Send { session_id: s.session_id, open: None })
                        && final(self)@ == old(self)@,
                    None => if !old(self)@.room(client.ip()) {
                        r == Packet::NoRoom && final(self)@ == old(self)@
                    } else {
                        &&& r matches Packet::Send { session_id, open: Some(o) }
                        &&& session_id == old(self)@.next_session_id
                        &&& o.node_id == route.node_id
                        &&& o.route_id == route.id
                        &&& o.udp_session_id == session_id
                        &&& ip::is_socket_text(client, o.client_addr@)
                        &&& final(self)@ == old(self)@.opened(
                            UdpSession {
                                session_id,
                                route_id: route.id,
                                node_id: route.node_id,
                                client,
                                last_active: now,
                            },
                        )
                    },
                }
            },
    {
        if !self.rate_checked(packets_ok, bytes_ok) {
            return Packet::TooFast;
        }
        proof {
            room_lasts_as_long_as_the_ids(self@, client.ip());
        }
        if udp_key_map_get(&self.sessions, key_of(client, route.id)).is_none() && !self.has_room(
            client.ip(),
        ) {
            return Packet::NoRoom;
        }
        let (session_id, open) = self.get_or_create_session(route, client, now);
        Packet::Send { session_id, open }
    }

    /// Takes note that a packet of a session has passed at `now`.
    pub fn touch(&mut self, session_id: u64, now: u64)
        requires
            old(self)@.wf(),
        ensures
            final(self)@.wf(),
            final(self)@ == old(self)@.touched(session_id, now),
    {
        if let Some(s) = udp_id_map_get(&self.by_id, session_id) {
            let t = UdpSession { last_active: now, ..s };
            udp_id_map_insert(&mut self.by_id, session_id, t);
            proof {
                touching_keeps_wf(old(self)@, session_id, now);
            }
        }
    }

    /// The client to whom a datagram of the agent for a session goes at `now`; nobody where the
    /// session is unknown.
    pub fn handle_datagram(&mut self, session_id: u64, now: u64) -> (r: Option<SocketAddr>)
        requires
            old(self)@.wf(),
        ensures
            final(self)@.wf(),
            final(self)@ == old(self)@.touched(session_id, now),
            r == (match maps::entry(old(self)@.by_id, session_id) {
                Some(s) => Some(s.client),
                None => None,
            }),
    {
        match udp_id_map_get(&self.by_id, session_id) {
            None => None,
            Some(s) => {
                self.touch(session_id, now);
                Some(s.client)
            },
        }
    }

    /// Closes a session.
    fn close(&mut self, s: UdpSession)
        requires
            old(self)@.wf(),
            old(self)@.by_id.dom().contains(s.session_id),
            old(self)@.by_id[s.session_id] == s,
        ensures
            final(self)@.wf(),
            final(self)@ == old(self)@.closed_one(s.session_id),
    {
        proof {
            closing_keeps_wf(old(self)@, s.session_id);
        }
        udp_key_map_remove(&mut self.sessions, key_of(s.client, s.route_id));
        udp_id_map_remove(&mut self.by_id, s.session_id);
        let ipk = key_of_ip(s.client.ip());
        match source_map_get(&self.sources, ipk) {
            Some(n) => {
                if n > 0 {
                    source_map_insert(&mut self.sources, ipk, n - 1);
                }
            },
            None => {},
        }
        assert(self@ =~= old(self)@.closed_one(s.session_id));
    }

    /// Closes the sessions that have been idle for too long at `now`, and forgets the addresses
    /// without sessions. The agents of the closed ones have to be told.
    pub fn reap_expired(&mut self, now: u64) -> (closed: Vec<UdpClose>)
        requires
            old(self)@.wf(),
        ensures
            final(self)@.wf(),
            forall|id: u64| #[trigger]
                final(self)@.by_id.dom().contains(id) <==> old(self)@.by_id.dom().contains(id)
                    && !old(self)@.expired(old(self)@.by_id[id], now),
            forall|id: u64| #[trigger]
                final(self)@.by_id.dom().contains(id) ==> final(self)@.by_id[id]
                    == old(self)@.by_id[id],
            forall|ip: (bool, u128)| #[trigger]
                final(self)@.sources.dom().contains(ip) ==> final(self)@.sources[ip] > 0,
            final(self)@.next_session_id == old(self)@.next_session_id,
            final(self)@.dropped_oversized == old(self)@.dropped_oversized,
            final(self)@.dropped_rate_limited == old(self)@.dropped_rate_limited,
            final(self)@.dropped_session_limited == old(self)@.dropped_session_limited,
            final(self)@.rate_limits == old(self)@.rate_limits,
            final(self)@.idle_timeout == old(self)@.idle_timeout,
            closed@.no_duplicates(),
            forall|c: UdpClose| #[trigger]
                closed@.contains(c) <==> {
                    &&& old(self)@.by_id.dom().contains(c.udp_session_id)
                    &&& old(self)@.expired(old(self)@.by_id[c.udp_session_id], now)
                    &&& c.node_id == old(self)@.by_id[c.udp_session_id].node_id
                },
    {
        let all = udp_id_map_values(&self.by_id);
        let ghost pre = self@;
        let ghost keys = choose|keys: Seq<u64>| #[trigger] maps::lists_by(pre.by_id, keys, all@);
        let mut closed: Vec<UdpClose> = Vec::new();
        let mut i: usize = 0;
        proof {
            listed_ids(pre, keys, all@);
        }
        while i < all.len()
            invariant
                i <= all@.len(),
                pre.wf(),
                self@.wf(),
                maps::lists_by(pre.by_id, keys, all@),
                lists_ids(pre, all@),
                reaped(pre, self@, all@, i as int, now),
                closes(pre, closed@, all@, i as int, now),
            decreases all@.len() - i,
        {
            let s = all[i];
            let ghost before = self@;
            let ghost was = closed@;
            let idle: u64 = now.saturating_sub(s.last_active);
            proof {
                not_gone_yet(pre, self@, all@, i as int, now);
            }
            if idle > self.idle_timeout {
                assert(pre.expired(s, now));
                self.close(s);
                closed.push(UdpClose { node_id: s.node_id, udp_session_id: s.session_id });
            }
            proof {
                reaped_extends(pre, before, self@, all@, i as int, now);
                closes_extends(pre, was, closed@, all@, i as int, now);
            }
            i += 1;
        }
        let ghost mid = self@;
        source_map_drop_idle(&mut self.sources);
        proof {
            forgetting_keeps_wf(mid);
            assert(self@ =~= (UdpState { sources: maps::with_sessions(mid.sources), ..mid }));
            all_reaped(pre, mid, all@, now);
            all_closed(pre, closed@, all@, now);
        }
        closed
    }

    /// The packets dropped because they were too large.
    pub fn dropped_oversized(&self) -> (n: u64)
        ensures
            n == self@.dropped_oversized,
    {
        self.dropped_oversized
    }

    /// The packets dropped because their client sent too much.
    pub fn dropped_rate_limited(&self) -> (n: u64)
        ensures
            n == self@.dropped_rate_limited,
    {
        self.dropped_rate_limited
    }

    /// The packets dropped because their client address had too many sessions.
    pub fn dropped_session_limited(&self) -> (n: u64)
        ensures
            n == self@.dropped_session_limited,
    {
        self.dropped_session_limited
    }

    /// The number of sessions.
    pub fn session_count(&self) -> (n: usize)
        ensures
            n == self@.sessions.len(),
    {
        udp_key_map_len(&self.sessions)
    }

    /// What each client address may do.
    pub fn limits(&self) -> (r: UdpRateLimits)
        ensures
            r == self@.rate_limits,
    {
        self.rate_limits
    }

    /// Whether a client address has sessions.
    pub fn knows(&self, ip: IpAddr) -> (r: bool)
        ensures
            r == (self@.count(ip_key(ip)) > 0),
    {
        match source_map_get(&self.sources, key_of_ip(ip)) {
            Some(n) => n > 0,
            None => false,
        }
    }
}

impl UdpState {
    /// The state with the new session `s`.
    pub open spec fn opened(self, s: UdpSession) -> UdpState {
        UdpState {
            sessions: self.sessions.insert(session_key(s.client, s.route_id), s.session_id),
            by_id: self.by_id.insert(s.session_id, s),
            sources: self.sources.insert(
                ip_key(s.client.ip()),
                (self.count(ip_key(s.client.ip())) + 1) as u32,
            ),
            next_session_id: (s.session_id + 1) as u64,
            ..self
        }
    }

    /// The state once a packet of the session `id` has passed at `now`.
    pub open spec fn touched(self, id: u64, now: u64) -> UdpState {
        if self.by_id.dom().contains(id) {
            UdpState {
                by_id: self.by_id.insert(id, UdpSession { last_active: now, ..self.by_id[id] }),
                ..self
            }
        } else {
            self
        }
    }

    /// The state without the session `id`.
    pub open spec fn closed_one(self, id: u64) -> UdpState {
        let s = self.by_id[id];
        UdpState {
            sessions: self.sessions.remove(session_key(s.client, s.route_id)),
            by_id: self.by_id.remove(id),
            sources: self.sources.insert(
                ip_key(s.client.ip()),
                (self.count(ip_key(s.client.ip())) - 1) as u32,
            ),
            ..self
        }
    }
}

proof fn opening_keeps_wf(st: UdpState, s: UdpSession)
    requires
        st.wf(),
        s.session_id == st.next_session_id,
        st.next_session_id < u64::MAX,
        st.count(ip_key(s.client.ip())) < u32::MAX,
        !st.sessions.dom().contains(session_key(s.client, s.route_id)),
    ensures
        st.opened(s).wf(),
{
    let t = st.opened(s);
    assert(!st.by_id.dom().contains(s.session_id));
    assert forall|ip: (bool, u128)| #[trigger] t.count(ip) == sessions_from(t.by_id, ip).len() by {
        count_after_open(st.by_id, s, ip);
        assert(st.count(ip) == sessions_from(st.by_id, ip).len());
    }
    assert forall|k: ClientKey| #[trigger] t.sessions.dom().contains(k) implies {
        &&& t.by_id.dom().contains(t.sessions[k])
        &&& session_key(t.by_id[t.sessions[k]].client, t.by_id[t.sessions[k]].route_id) == k
    } by {
        if k != session_key(s.client, s.route_id) {
            assert(st.sessions.dom().contains(k));
            assert(st.by_id.dom().contains(st.sessions[k]));
        }
    }
    assert forall|id: u64| #[trigger] t.by_id.dom().contains(id) implies {
        &&& t.by_id[id].session_id == id
        &&& id < t.next_session_id
        &&& t.sessions.dom().contains(session_key(t.by_id[id].client, t.by_id[id].route_id))
        &&& t.sessions[session_key(t.by_id[id].client, t.by_id[id].route_id)] == id
    } by {
        if id != s.session_id {
            assert(st.by_id.dom().contains(id));
        }
    }
}

proof fn touching_keeps_wf(st: UdpState, id: u64, now: u64)
    requires
        st.wf(),
        st.by_id.dom().contains(id),
    ensures
        st.touched(id, now).wf(),
{
    let t = st.touched(id, now);
    let s = UdpSession { last_active: now, ..st.by_id[id] };
    assert(t.by_id.dom() =~= st.by_id.dom());
    assert forall|ip: (bool, u128)| #[trigger] t.count(ip) == sessions_from(t.by_id, ip).len() by {
        count_after_touch(st.by_id, s, ip);
        assert(st.count(ip) == sessions_from(st.by_id, ip).len());
    }
    assert forall|k: ClientKey| #[trigger] t.sessions.dom().contains(k) implies {
        &&& t.by_id.dom().contains(t.sessions[k])
        &&& session_key(t.by_id[t.sessions[k]].client, t.by_id[t.sessions[k]].route_id) == k
    } by {
        assert(st.sessions.dom().contains(k));
    }
    assert forall|x: u64| #[trigger] t.by_id.dom().contains(x) implies {
        &&& t.by_id[x].session_id == x
        &&& x < t.next_session_id
        &&& t.sessions.dom().contains(session_key(t.by_id[x].client, t.by_id[x].route_id))
        &&& t.sessions[session_key(t.by_id[x].client, t.by_id[x].route_id)] == x
    } by {
        assert(st.by_id.dom().contains(x));
    }
}

proof fn closing_keeps_wf(st: UdpState, id: u64)
    requires
        st.wf(),
        st.by_id.dom().contains(id),
    ensures
        st.closed_one(id).wf(),
        st.count(ip_key(st.by_id[id].client.ip())) > 0,
{
    let t = st.closed_one(id);
    let s = st.by_id[id];
    let home = ip_key(s.client.ip());
    assert(st.count(home) > 0) by {
        assert(st.count(home) == sessions_from(st.by_id, home).len());
        assert(sessions_from(st.by_id, home).contains(id));
        assert(sessions_from(st.by_id, home).finite());
        vstd::set_lib::lemma_set_empty_equivalency_len(sessions_from(st.by_id, home));
    }
    assert forall|ip: (bool, u128)| #[trigger] t.count(ip) == sessions_from(t.by_id, ip).len() by {
        count_after_close(st.by_id, id, ip);
        assert(st.count(ip) == sessions_from(st.by_id, ip).len());
    }
    assert forall|k: ClientKey| #[trigger] t.sessions.dom().contains(k) implies {
        &&& t.by_id.dom().contains(t.sessions[k])
        &&& session_key(t.by_id[t.sessions[k]].client, t.by_id[t.sessions[k]].route_id) == k
    } by {
        assert(st.sessions.dom().contains(k));
        if st.sessions[k] == id {
            assert(k == session_key(s.client, s.route_id));
        }
    }
    assert forall|x: u64| #[trigger] t.by_id.dom().contains(x) implies {
        &&& t.by_id[x].session_id == x
        &&& x < t.next_session_id
        &&& t.sessions.dom().contains(session_key(t.by_id[x].client, t.by_id[x].route_id))
        &&& t.sessions[session_key(t.by_id[x].client, t.by_id[x].route_id)] == x
    } by {
        assert(st.by_id.dom().contains(x));
    }
}

proof fn forgetting_keeps_wf(st: UdpState)
    requires
        st.wf(),
    ensures
        (UdpState { sources: maps::with_sessions(st.sources), ..st }).wf(),
{
    let t = UdpState { sources: maps::with_sessions(st.sources), ..st };
    assert forall|ip: (bool, u128)| #[trigger] t.count(ip) == sessions_from(t.by_id, ip).len() by {
        assert(st.count(ip) == sessions_from(st.by_id, ip).len());
    }
    assert forall|k: ClientKey| #[trigger] t.sessions.dom().contains(k) implies {
        &&& t.by_id.dom().contains(t.sessions[k])
        &&& session_key(t.by_id[t.sessions[k]].client, t.by_id[t.sessions[k]].route_id) == k
    } by {
        assert(st.sessions.dom().contains(k));
    }
    assert forall|x: u64| #[trigger] t.by_id.dom().contains(x) implies {
        &&& t.by_id[x].session_id == x
        &&& x < t.next_session_id
        &&& t.sessions.dom().contains(session_key(t.by_id[x].client, t.by_id[x].route_id))
        &&& t.sessions[session_key(t.by_id[x].client, t.by_id[x].route_id)] == x
    } by {
        assert(st.by_id.dom().contains(x));
    }
}

/// `all` are the sessions of `pre`, each once.
spec fn lists_ids(pre: UdpState, all: Seq<UdpSession>) -> bool {
    &&& forall|i: int|
        0 <= i < all.len() ==> pre.by_id.dom().contains((#[trigger] all[i]).session_id)
            && pre.by_id[all[i].session_id] == all[i]
    &&& forall|i: int, j: int|
        0 <= i < j < all.len() ==> (#[trigger] all[i]).session_id != (#[trigger] all[j]).session_id
    &&& forall|id: u64| #[trigger]
        pre.by_id.dom().contains(id) ==> exists|i: int|
            0 <= i < all.len() && (#[trigger] all[i]).session_id == id
}

proof fn listed_ids(pre: UdpState, keys: Seq<u64>, all: Seq<UdpSession>)
    requires
        pre.wf(),
        maps::lists_by(pre.by_id, keys, all),
    ensures
        lists_ids(pre, all),
{
    assert forall|i: int| 0 <= i < all.len() implies pre.by_id.dom().contains(
        (#[trigger] all[i]).session_id,
    ) && pre.by_id[all[i].session_id] == all[i] by {
        assert(keys.to_set().contains(keys[i]));
        assert(pre.by_id.dom().contains(keys[i]));
        assert(all[i] == pre.by_id[keys[i]]);
    }
    assert forall|i: int, j: int| 0 <= i < j < all.len() implies (#[trigger] all[i]).session_id != (
    #[trigger] all[j]).session_id by {
        assert(keys.to_set().contains(keys[i]));
        assert(keys.to_set().contains(keys[j]));
        assert(all[i] == pre.by_id[keys[i]] && all[j] == pre.by_id[keys[j]]);
        assert(keys[i] != keys[j]);
    }
    assert forall|id: u64| #[trigger] pre.by_id.dom().contains(id) implies exists|i: int|
        0 <= i < all.len() && (#[trigger] all[i]).session_id == id by {
        assert(keys.to_set().contains(id));
        let i = choose|i: int| 0 <= i < keys.len() && keys[i] == id;
        assert(all[i] == pre.by_id[keys[i]]);
        assert(all[i].session_id == id);
    }
}

/// One of the first `n` of `all` has the id `id` and has expired.
spec fn went(pre: UdpState, all: Seq<UdpSession>, n: int, id: u64, now: u64) -> bool {
    exists|i: int|
        0 <= i < n && (#[trigger] all[i]).session_id == id && pre.expired(all[i], now)
}

/// `cur` is `pre` without those of the first `n` of `all` that have expired.
spec fn reaped(pre: UdpState, cur: UdpState, all: Seq<UdpSession>, n: int, now: u64) -> bool {
    &&& forall|id: u64| #[trigger]
        cur.by_id.dom().contains(id) <==> pre.by_id.dom().contains(id) && !went(
            pre,
            all,
            n,
            id,
            now,
        )
    &&& forall|id: u64| #[trigger]
        cur.by_id.dom().contains(id) ==> cur.by_id[id] == pre.by_id[id]
    &&& cur.next_session_id == pre.next_session_id
    &&& cur.dropped_oversized == pre.dropped_oversized
    &&& cur.dropped_rate_limited == pre.dropped_rate_limited
    &&& cur.dropped_session_limited == pre.dropped_session_limited
    &&& cur.rate_limits == pre.rate_limits
    &&& cur.idle_timeout == pre.idle_timeout
}

proof fn reaped_extends(
    pre: UdpState,
    before: UdpState,
    after: UdpState,
    all: Seq<UdpSession>,
    n: int,
    now: u64,
)
    requires
        0 <= n < all.len(),
        lists_ids(pre, all),
        reaped(pre, before, all, n, now),
        after == (if pre.expired(all[n], now) {
            before.closed_one(all[n].session_id)
        } else {
            before
        }),
    ensures
        reaped(pre, after, all, n + 1, now),
{
    assert forall|id: u64| went(pre, all, n + 1, id, now) <==> went(pre, all, n, id, now) || (id
        == all[n].session_id && pre.expired(all[n], now)) by {
        if went(pre, all, n + 1, id, now) {
            let i = choose|i: int|
                0 <= i < n + 1 && (#[trigger] all[i]).session_id == id && pre.expired(all[i], now);
            if i < n {
                assert(went(pre, all, n, id, now));
            }
        }
        if went(pre, all, n, id, now) {
            let i = choose|i: int|
                0 <= i < n && (#[trigger] all[i]).session_id == id && pre.expired(all[i], now);
            assert(0 <= i < n + 1 && all[i].session_id == id && pre.expired(all[i], now));
        }
        if id == all[n].session_id && pre.expired(all[n], now) {
            assert(0 <= n < n + 1 && all[n].session_id == id && pre.expired(all[n], now));
        }
    }
    assert forall|id: u64| #[trigger]
        after.by_id.dom().contains(id) <==> pre.by_id.dom().contains(id) && !went(
            pre,
            all,
            n + 1,
            id,
            now,
        ) by {
        assert(before.by_id.dom().contains(id) <==> pre.by_id.dom().contains(id) && !went(
            pre,
            all,
            n,
            id,
            now,
        ));
    }
    assert forall|id: u64| #[trigger]
        after.by_id.dom().contains(id) implies after.by_id[id] == pre.by_id[id] by {
        assert(before.by_id.dom().contains(id));
    }
}

proof fn not_gone_yet(pre: UdpState, cur: UdpState, all: Seq<UdpSession>, n: int, now: u64)
    requires
        0 <= n < all.len(),
        lists_ids(pre, all),
        reaped(pre, cur, all, n, now),
    ensures
        cur.by_id.dom().contains(all[n].session_id),
        cur.by_id[all[n].session_id] == all[n],
{
    if went(pre, all, n, all[n].session_id, now) {
        let i = choose|i: int|
            0 <= i < n && (#[trigger] all[i]).session_id == all[n].session_id && pre.expired(
                all[i],
                now,
            );
        assert(all[i].session_id != all[n].session_id);
    }
}

proof fn all_reaped(pre: UdpState, cur: UdpState, all: Seq<UdpSession>, now: u64)
    requires
        lists_ids(pre, all),
        reaped(pre, cur, all, all.len() as int, now),
    ensures
        forall|id: u64| #[trigger]
            cur.by_id.dom().contains(id) <==> pre.by_id.dom().contains(id) && !pre.expired(
                pre.by_id[id],
                now,
            ),
{
    assert forall|id: u64| #[trigger]
        cur.by_id.dom().contains(id) <==> pre.by_id.dom().contains(id) && !pre.expired(
            pre.by_id[id],
            now,
        ) by {
        if pre.by_id.dom().contains(id) {
            let i = choose|i: int| 0 <= i < all.len() && (#[trigger] all[i]).session_id == id;
            assert(pre.by_id[id] == all[i]);
            if pre.expired(all[i], now) {
                assert(went(pre, all, all.len() as int, id, now));
            }
            if went(pre, all, all.len() as int, id, now) {
                let j = choose|j: int|
                    0 <= j < all.len() && (#[trigger] all[j]).session_id == id && pre.expired(
                        all[j],
                        now,
                    );
                assert(pre.by_id[id] == all[j]);
            }
        }
    }
}

/// `closed` tells of those of the first `n` of `all` that have expired, each once.
spec fn closes(
    pre: UdpState,
    closed: Seq<UdpClose>,
    all: Seq<UdpSession>,
    n: int,
    now: u64,
) -> bool {
    &&& forall|k: int|
        0 <= k < closed.len() ==> (#[trigger] closed[k]).node_id
            == pre.by_id[closed[k].udp_session_id].node_id && went(
            pre,
            all,
            n,
            closed[k].udp_session_id,
            now,
        )
    &&& forall|j: int, k: int|
        0 <= j < k < closed.len() ==> (#[trigger] closed[j]).udp_session_id != (
        #[trigger] closed[k]).udp_session_id
    &&& forall|i: int|
        0 <= i < n && pre.expired(#[trigger] all[i], now) ==> exists|k: int|
            0 <= k < closed.len() && (#[trigger] closed[k]).udp_session_id == all[i].session_id
}

proof fn closes_extends(
    pre: UdpState,
    was: Seq<UdpClose>,
    closed: Seq<UdpClose>,
    all: Seq<UdpSession>,
    n: int,
    now: u64,
)
    requires
        0 <= n < all.len(),
        lists_ids(pre, all),
        closes(pre, was, all, n, now),
        closed == (if pre.expired(all[n], now) {
            was.push(UdpClose { node_id: all[n].node_id, udp_session_id: all[n].session_id })
        } else {
            was
        }),
    ensures
        closes(pre, closed, all, n + 1, now),
{
    assert forall|id: u64| went(pre, all, n, id, now) implies went(pre, all, n + 1, id, now) by {
        let i = choose|i: int|
            0 <= i < n && (#[trigger] all[i]).session_id == id && pre.expired(all[i], now);
        assert(0 <= i < n + 1 && all[i].session_id == id && pre.expired(all[i], now));
    }
    if pre.expired(all[n], now) {
        assert(went(pre, all, n + 1, all[n].session_id, now));
        assert forall|j: int, k: int| 0 <= j < k < closed.len() implies (
        #[trigger] closed[j]).udp_session_id != (#[trigger] closed[k]).udp_session_id by {
            if k == was.len() {
                assert(closed[j] == was[j]);
                let i = choose|i: int|
                    0 <= i < n && (#[trigger] all[i]).session_id == was[j].udp_session_id
                        && pre.expired(all[i], now);
                assert(all[i].session_id != all[n].session_id);
            } else {
                assert(closed[j] == was[j] && closed[k] == was[k]);
            }
        }
        assert forall|i: int| 0 <= i < n + 1 && pre.expired(#[trigger] all[i], now) implies exists|
            k: int,
        |
            0 <= k < closed.len() && (#[trigger] closed[k]).udp_session_id == all[i].session_id by {
            if i < n {
                let k = choose|k: int|
                    0 <= k < was.len() && (#[trigger] was[k]).udp_session_id == all[i].session_id;
                assert(closed[k].udp_session_id == all[i].session_id);
            } else {
                assert(closed[was.len() as int].udp_session_id == all[i].session_id);
            }
        }
        assert forall|k: int| 0 <= k < closed.len() implies (#[trigger] closed[k]).node_id
            == pre.by_id[closed[k].udp_session_id].node_id && went(
            pre,
            all,
            n + 1,
            closed[k].udp_session_id,
            now,
        ) by {
            if k < was.len() {
                assert(closed[k] == was[k]);
            }
        }
    }
}

proof fn all_closed(pre: UdpState, closed: Seq<UdpClose>, all: Seq<UdpSession>, now: u64)
    requires
        lists_ids(pre, all),
        closes(pre, closed, all, all.len() as int, now),
    ensures
        closed.no_duplicates(),
        forall|c: UdpClose| #[trigger]
            closed.contains(c) <==> {
                &&& pre.by_id.dom().contains(c.udp_session_id)
                &&& pre.expired(pre.by_id[c.udp_session_id], now)
                &&& c.node_id == pre.by_id[c.udp_session_id].node_id
            },
{
    assert forall|c: UdpClose| #[trigger]
        closed.contains(c) <==> {
            &&& pre.by_id.dom().contains(c.udp_session_id)
            &&& pre.expired(pre.by_id[c.udp_session_id], now)
            &&& c.node_id == pre.by_id[c.udp_session_id].node_id
        } by {
        if closed.contains(c) {
            let k = choose|k: int| 0 <= k < closed.len() && closed[k] == c;
            let i = choose|i: int|
                0 <= i < all.len() && (#[trigger] all[i]).session_id == closed[k].udp_session_id
                    && pre.expired(all[i], now);
            assert(pre.by_id[all[i].session_id] == all[i]);
        }
        if pre.by_id.dom().contains(c.udp_session_id) && pre.expired(
            pre.by_id[c.udp_session_id],
            now,
        ) && c.node_id == pre.by_id[c.udp_session_id].node_id {
            let i = choose|i: int|
                0 <= i < all.len() && (#[trigger] all[i]).session_id == c.udp_session_id;
            assert(pre.by_id[all[i].session_id] == all[i]);
            let k = choose|k: int|
                0 <= k < closed.len() && (#[trigger] closed[k]).udp_session_id
                    == all[i].session_id;
            assert(closed[k] == c);
        }
    }
}

/// Sessions are opened only where `may_open` lets them; so no address ever has more sessions than
/// it may have, after a session was opened, used or closed.
pub proof fn sessions_stay_within_the_limit(st: UdpState, s: UdpSession, id: u64, now: u64)
    requires
        st.wf(),
        st.within_limit(),
    ensures
        s.session_id == st.next_session_id && st.room(s.client.ip()) && st.session_of(
            s.client,
            s.route_id,
        ) is None && st.may_open(s.client, s.route_id) ==> st.opened(s).within_limit(),
        st.touched(id, now).within_limit(),
        st.by_id.dom().contains(id) ==> st.closed_one(id).within_limit(),
{
    if s.session_id == st.next_session_id && st.room(s.client.ip()) && st.session_of(
        s.client,
        s.route_id,
    ) is None && st.may_open(s.client, s.route_id) {
        let t = st.opened(s);
        assert(!st.by_id.dom().contains(s.session_id));
        assert forall|ip: (bool, u128)| #[trigger]
            sessions_from(t.by_id, ip).len() <= t.rate_limits.max_sessions_per_ip by {
            assert(st.count(ip) == sessions_from(st.by_id, ip).len());
            count_after_open(st.by_id, s, ip);
        }
    }
    if st.by_id.dom().contains(id) {
        let t = st.touched(id, now);
        let c = st.closed_one(id);
        assert forall|ip: (bool, u128)| #[trigger]
            sessions_from(t.by_id, ip).len() <= t.rate_limits.max_sessions_per_ip by {
            count_after_touch(st.by_id, UdpSession { last_active: now, ..st.by_id[id] }, ip);
        }
        assert forall|ip: (bool, u128)| #[trigger]
            sessions_from(c.by_id, ip).len() <= c.rate_limits.max_sessions_per_ip by {
            count_after_close(st.by_id, id, ip);
        }
    }
}

/// A session that was opened is found by its client and its route, and by its id.
pub proof fn opened_session_is_found(st: UdpState, s: UdpSession)
    requires
        st.wf(),
    ensures
        st.opened(s).session_of(s.client, s.route_id) == Some(s),
        maps::entry(st.opened(s).by_id, s.session_id) == Some(s),
{
}

// ---- where a packet goes ----

/// Where a packet that a listener has received goes.
pub enum UdpLookup {
    /// The listener has no route any more.
    NoRoute,
    /// The node of the route is offline.
    Offline,
    /// It may go to this node.
    Found { route: Arc<ServerRoute>, conn: quinn::Connection },
}

/// Where a packet that the listener at `addr` has received goes. The route is looked up anew for
/// each one.
pub fn forward_to_agent(routes: &RouteTable, conns: &ConnRegistry, addr: &SocketAddr) -> (r:
    UdpLookup)
    ensures
        match maps::entry(routes@, route::addr_key(*addr)) {
            None => r is NoRoute,
            Some(route) => match maps::entry(conns@, route.node_id.value) {
                None => r is Offline,
                Some(conn) => r == (UdpLookup::Found { route, conn }),
            },
        },
{
    match routes.lookup(addr) {
        None => UdpLookup::NoRoute,
        Some(route) => match conns.get(route.node_id) {
            None => UdpLookup::Offline,
            Some(conn) => UdpLookup::Found { route, conn },
        },
    }
}

/// The listeners at which a route stands, each with the id of its route, in the order in which
/// they were bound.
pub open spec fn bound_routes(
    bound: Seq<SocketAddr>,
    routes: Map<AddrKey, Arc<ServerRoute>>,
) -> Seq<(RouteId, SocketAddr)>
    decreases bound.len(),
{
    if bound.len() == 0 {
        Seq::empty()
    } else {
        let before = bound_routes(bound.drop_last(), routes);
        match maps::entry(routes, route::addr_key(bound.last())) {
            Some(route) => before.push((route.id, bound.last())),
            None => before,
        }
    }
}

/// The ids of the routes do not fall.
pub open spec fn in_order(s: Seq<(RouteId, SocketAddr)>) -> bool {
    forall|i: int, j: int|
        0 <= i <= j < s.len() ==> (#[trigger] s[i]).0.value <= (#[trigger] s[j]).0.value
}

/// Puts a listener into its place among others that are in order.
fn put_in_order(out: &mut Vec<(RouteId, SocketAddr)>, one: (RouteId, SocketAddr))
    requires
        in_order(old(out)@),
    ensures
        in_order(final(out)@),
        final(out)@.to_multiset() == old(out)@.to_multiset().insert(one),
{
    let mut at: usize = 0;
    while at < out.len() && out[at].0.value <= one.0.value
        invariant
            at <= out@.len(),
            forall|k: int| 0 <= k < at ==> (#[trigger] out@[k]).0.value <= one.0.value,
        decreases out@.len() - at,
    {
        at += 1;
    }
    let ghost before = out@;
    out.insert(at, one);
    proof {
        broadcast use vstd::seq_lib::group_to_multiset_ensures;

        assert(out@.remove(at as int) =~= before);
        assert(out@[at as int] == one);
        assert(out@.contains(one));
        assert(out@.to_multiset() =~= before.to_multiset().insert(one));
    }
}

/// Where the routes listen, in the order of the routes' ids. A listener at which no route stands
/// any more is left out.
pub fn local_addrs(bound: &Vec<SocketAddr>, routes: &RouteTable) -> (r: Vec<(RouteId, SocketAddr)>)
    ensures
        in_order(r@),
        r@.to_multiset() == bound_routes(bound@, routes@).to_multiset(),
{
    let mut out: Vec<(RouteId, SocketAddr)> = Vec::new();
    let mut i: usize = 0;
    while i < bound.len()
        invariant
            i <= bound@.len(),
            in_order(out@),
            out@.to_multiset() == bound_routes(bound@.take(i as int), routes@).to_multiset(),
        decreases bound@.len() - i,
    {
        assert(bound@.take(i + 1).drop_last() =~= bound@.take(i as int));
        if let Some(route) = routes.lookup(&bound[i]) {
            proof {
                broadcast use vstd::seq_lib::group_to_multiset_ensures;

            }
            put_in_order(&mut out, (route.id, bound[i]));
        }
        i += 1;
    }
    assert(bound@.take(i as int) =~= bound@);
    out
}

// ---- what holds of sessions ----

/// A client can get another session as long as fewer than 2^64 - 1 ids were given out and its
/// address has fewer than 2^32 - 1 sessions, however many sessions others have or had.
pub proof fn room_lasts_as_long_as_the_ids(st: UdpState, ip: IpAddr)
    requires
        st.wf(),
    ensures
        st.next_session_id < 0xffff_ffff_ffff_ffff && sessions_from(st.by_id, ip_key(ip)).len()
            < 0xffff_ffff ==> st.room(ip),
        st.next_session_id == 0xffff_ffff_ffff_ffff ==> !st.room(ip),
{
    assert(st.count(ip_key(ip)) == sessions_from(st.by_id, ip_key(ip)).len());
}

/// Different addresses have different keys.
pub proof fn ip_key_is_injective(a: IpAddr, b: IpAddr)
    requires
        ip_key(a) == ip_key(b),
    ensures
        a == b,
{
}

/// The sessions that count for an address are those whose client has this address, whatever its
/// port and whatever the route.
pub proof fn sessions_count_for_their_address(by_id: Map<u64, UdpSession>, ip: IpAddr, id: u64)
    ensures
        sessions_from(by_id, ip_key(ip)).contains(id) <==> by_id.dom().contains(id)
            && by_id[id].client.ip() == ip,
{
    if by_id.dom().contains(id) && ip_key(by_id[id].client.ip()) == ip_key(ip) {
        ip_key_is_injective(by_id[id].client.ip(), ip);
    }
}

/// A packet is small enough where its payload has at most 1200 bytes and fits, with the ten bytes
/// before it, into what the agent takes; where the agent takes no datagrams only an empty one is.
pub proof fn which_packets_are_small_enough(len: usize, peer_max: Option<usize>)
    ensures
        peer_max is None ==> (fits(len, peer_max) <==> len == 0),
        peer_max matches Some(m) ==> (fits(len, peer_max) <==> len == 0 || (len <= 1200 && len + 10
            <= m)),
{
}

/// A packet passes, as far as the number of sessions goes, exactly where its client has a session
/// with the route or its address has fewer sessions than it may have.
pub proof fn who_may_open_a_session(st: UdpState, client: SocketAddr, route: RouteId)
    requires
        st.wf(),
    ensures
        st.may_open(client, route) <==> st.session_of(client, route) is Some || sessions_from(
            st.by_id,
            ip_key(client.ip()),
        ).len() < st.rate_limits.max_sessions_per_ip,
        st.session_of(client, route) matches Some(s) ==> s.client == client && s.route_id == route
            && st.by_id.dom().contains(s.session_id) && st.by_id[s.session_id] == s,
{
    let ip = ip_key(client.ip());
    assert(st.count(ip) == sessions_from(st.by_id, ip).len());
    let k = session_key(client, route);
    if st.sessions.dom().contains(k) {
        let s = st.by_id[st.sessions[k]];
        session_key_is_injective(s.client, s.route_id, client, route);
        assert(st.by_id.dom().contains(st.sessions[k]));
    }
}

/// What is too large is dropped for its size, whatever else holds; then what would be a session
/// too many; of the rest the rates are asked.
pub proof fn what_becomes_of_an_offer(
    st: UdpState,
    client: SocketAddr,
    route: RouteId,
    len: usize,
    peer_max: Option<usize>,
)
    ensures
        st.offered(client, route, len, peer_max) is TooLarge <==> !fits(len, peer_max),
        st.offered(client, route, len, peer_max) is TooManySessions <==> fits(len, peer_max)
            && !st.may_open(client, route),
        st.offered(client, route, len, peer_max) is AskRates <==> fits(len, peer_max)
            && st.may_open(client, route),
{
}

/// A session has expired exactly where more time than it may be idle has passed since its last
/// packet. Where the time is the usual one, in nanoseconds, that is a minute, in which is looked six
/// times.
pub proof fn when_a_session_expires(st: UdpState, s: UdpSession, now: u64)
    ensures
        st.expired(s, now) <==> now as int - s.last_active as int > st.idle_timeout as int,
        st.idle_timeout == UDP_IDLE_TIMEOUT_SECS * 1_000_000_000 ==> (st.expired(s, now) <==> now as int
            - s.last_active as int > 60_000_000_000),
        6 * REAP_INTERVAL_SECS == UDP_IDLE_TIMEOUT_SECS,
{
}

/// A new session gets the next id, is the only thing that changes among the sessions, and counts
/// for its client's address alone.
pub proof fn opening_changes_nothing_else(
    st: UdpState,
    s: UdpSession,
    id: u64,
    client: SocketAddr,
    route: RouteId,
    ip: IpAddr,
)
    requires
        st.wf(),
        s.session_id == st.next_session_id,
        st.next_session_id < u64::MAX,
        st.count(ip_key(s.client.ip())) < u32::MAX,
    ensures
        st.opened(s).next_session_id == st.next_session_id + 1,
        id != s.session_id ==> maps::entry(st.opened(s).by_id, id) == maps::entry(st.by_id, id),
        client != s.client || route != s.route_id ==> st.opened(s).session_of(client, route)
            == st.session_of(client, route),
        st.opened(s).count(ip_key(ip)) == st.count(ip_key(ip)) + (if ip == s.client.ip() {
            1int
        } else {
            0int
        }),
        st.opened(s).dropped_oversized == st.dropped_oversized,
        st.opened(s).dropped_rate_limited == st.dropped_rate_limited,
        st.opened(s).dropped_session_limited == st.dropped_session_limited,
        st.opened(s).rate_limits == st.rate_limits,
        st.opened(s).idle_timeout == st.idle_timeout,
{
    if ip_key(ip) == ip_key(s.client.ip()) {
        ip_key_is_injective(ip, s.client.ip());
    }
    if session_key(client, route) == session_key(s.client, s.route_id) {
        session_key_is_injective(client, route, s.client, s.route_id);
    }
    let k = session_key(client, route);
    if st.sessions.dom().contains(k) {
        assert(st.by_id.dom().contains(st.sessions[k]));
    }
}

/// A packet of a session puts off its end, and changes nothing else: neither the session's client,
/// route and node, nor any other session.
pub proof fn a_packet_changes_the_last_moment_only(st: UdpState, id: u64, now: u64, other: u64)
    ensures
        st.by_id.dom().contains(id) ==> st.touched(id, now).by_id[id] == (UdpSession {
            session_id: st.by_id[id].session_id,
            route_id: st.by_id[id].route_id,
            node_id: st.by_id[id].node_id,
            client: st.by_id[id].client,
            last_active: now,
        }),
        other != id ==> maps::entry(st.touched(id, now).by_id, other) == maps::entry(
            st.by_id,
            other,
        ),
        !st.by_id.dom().contains(id) ==> st.touched(id, now) == st,
        st.touched(id, now).sessions == st.sessions,
        st.touched(id, now).sources == st.sources,
        st.touched(id, now).next_session_id == st.next_session_id,
        st.touched(id, now).rate_limits == st.rate_limits,
        st.touched(id, now).idle_timeout == st.idle_timeout,
{
}

/// A session that was closed is found neither by its client nor by its id, no longer counts for
/// its client's address, and leaves every other session as it was.
pub proof fn closing_changes_nothing_else(
    st: UdpState,
    id: u64,
    other: u64,
    client: SocketAddr,
    route: RouteId,
    ip: IpAddr,
)
    requires
        st.wf(),
        st.by_id.dom().contains(id),
    ensures
        maps::entry(st.closed_one(id).by_id, id) is None,
        st.closed_one(id).session_of(st.by_id[id].client, st.by_id[id].route_id) is None,
        other != id ==> maps::entry(st.closed_one(id).by_id, other) == maps::entry(
            st.by_id,
            other,
        ),
        client != st.by_id[id].client || route != st.by_id[id].route_id ==> st.closed_one(
            id,
        ).session_of(client, route) == st.session_of(client, route),
        st.closed_one(id).count(ip_key(ip)) == st.count(ip_key(ip)) - (if ip
            == st.by_id[id].client.ip() {
            1int
        } else {
            0int
        }),
        st.closed_one(id).next_session_id == st.next_session_id,
        st.closed_one(id).rate_limits == st.rate_limits,
        st.closed_one(id).idle_timeout == st.idle_timeout,
{
    let s = st.by_id[id];
    let home = ip_key(s.client.ip());
    if ip_key(ip) == home {
        ip_key_is_injective(ip, s.client.ip());
    }
    assert(st.count(home) == sessions_from(st.by_id, home).len());
    assert(sessions_from(st.by_id, home).contains(id));
    assert(sessions_from(st.by_id, home).finite());
    vstd::set_lib::lemma_set_empty_equivalency_len(sessions_from(st.by_id, home));
    let k = session_key(client, route);
    if k == session_key(s.client, s.route_id) {
        session_key_is_injective(client, route, s.client, s.route_id);
    }
    if st.sessions.dom().contains(k) && k != session_key(s.client, s.route_id) {
        assert(st.by_id.dom().contains(st.sessions[k]));
        assert(st.sessions[k] != id);
    }
}

/// Where the routes listen is told of exactly the listeners at which a route stands, each with
/// that route.
pub proof fn listeners_are_told_with_their_route(
    bound: Seq<SocketAddr>,
    routes: Map<AddrKey, Arc<ServerRoute>>,
    addr: SocketAddr,
)
    ensures
        routes.dom().contains(route::addr_key(addr)) ==> bound_routes(bound.push(addr), routes)
            == bound_routes(bound, routes).push((routes[route::addr_key(addr)].id, addr)),
        !routes.dom().contains(route::addr_key(addr)) ==> bound_routes(bound.push(addr), routes)
            == bound_routes(bound, routes),
{
    assert(bound.push(addr).drop_last() =~= bound);
}

} // verus!
