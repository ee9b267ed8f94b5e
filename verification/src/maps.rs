//! The concurrent maps of the `dashmap` crate, one instance per table of the server.
//!
//! A map takes changes through a shared reference. The tables hold theirs exclusively, so every
//! operation that changes one takes it by mutable reference here.
use crate::route::ServerRoute;
use crate::session::{AccessToken, Session};
use crate::udp_proxy::{UdpSession, has_sessions};
use std::sync::Arc;
use vstd::prelude::*;

verus! {

#[verifier::external_type_specification]
#[verifier::external_body]
#[verifier::reject_recursive_types(K)]
#[verifier::reject_recursive_types(V)]
#[verifier::reject_recursive_types(S)]
pub struct ExDashMap<K, V, S>(dashmap::DashMap<K, V, S>);

/// What a lookup of `k` in `m` gives.
pub open spec fn entry<K, V>(m: Map<K, V>, k: K) -> Option<V> {
    if m.dom().contains(k) {
        Some(m[k])
    } else {
        None
    }
}

/// `s` holds the value of every key of `m`, each key once, in some order.
pub open spec fn lists_values<K, V>(m: Map<K, V>, s: Seq<V>) -> bool {
    exists|keys: Seq<K>| #[trigger] lists_by(m, keys, s)
}

/// `s` holds the values of `m` in the order of `keys`, which are the keys of `m`.
pub open spec fn lists_by<K, V>(m: Map<K, V>, keys: Seq<K>, s: Seq<V>) -> bool {
    &&& keys.no_duplicates()
    &&& keys.to_set() == m.dom()
    &&& keys.len() == s.len()
    &&& forall|i: int| 0 <= i < s.len() ==> s[i] == m[#[trigger] keys[i]]
}

// ---- times of failed logins, by user name ----

pub type FailureMap = dashmap::DashMap<String, Vec<u64>>;

/// What a map of failure times holds.
pub uninterp spec fn failure_entries(m: FailureMap) -> Map<Seq<char>, Seq<u64>>;

/// `DashMap::new`: an empty map.
#[verifier::external_body]
pub(crate) fn failure_map() -> (m: FailureMap)
    ensures
        (failure_entries(m) == Map::<Seq<char>, Seq<u64>>::empty()),
{
    dashmap::DashMap::new()
}

/// `DashMap::get`: the value of the key, if it is in the map.
#[verifier::external_body]
pub(crate) fn failure_map_get(m: &FailureMap, k: &str) -> (r: Option<Vec<u64>>)
    ensures
        match r {
            Some(v) => entry(failure_entries(*m), k@) == Some(v@),
            None => entry(failure_entries(*m), k@) is None,
        },
{
    m.get(k).map(|v| v.value().clone())
}

/// `DashMap::insert`: the key now has the value, whatever it had before.
#[verifier::external_body]
pub(crate) fn failure_map_insert(m: &mut FailureMap, k: String, v: Vec<u64>)
    ensures
        failure_entries(*final(m)) == failure_entries(*old(m)).insert(k@, v@),
{
    m.insert(k, v);
}

/// `DashMap::remove`: the key is no longer in the map.
#[verifier::external_body]
pub(crate) fn failure_map_remove(m: &mut FailureMap, k: &str)
    ensures
        failure_entries(*final(m)) == failure_entries(*old(m)).remove(k@),
{
    m.remove(k);
}

// ---- numbers, by identifier ----

pub type NumberMap = dashmap::DashMap<u128, u64>;

/// What a map of numbers holds.
pub uninterp spec fn number_entries(m: NumberMap) -> Map<u128, u64>;

/// `DashMap::new`: an empty map.
#[verifier::external_body]
pub(crate) fn number_map() -> (m: NumberMap)
    ensures
        (number_entries(m) == Map::<u128, u64>::empty()),
{
    dashmap::DashMap::new()
}

/// `DashMap::get`: the value of the key, if it is in the map.
#[verifier::external_body]
pub(crate) fn number_map_get(m: &NumberMap, k: u128) -> (r: Option<u64>)
    ensures
        r == entry(number_entries(*m), k),
{
    m.get(&k).map(|v| *v.value())
}

/// `DashMap::insert`: the key now has the value, whatever it had before.
#[verifier::external_body]
pub(crate) fn number_map_insert(m: &mut NumberMap, k: u128, v: u64)
    ensures
        number_entries(*final(m)) == number_entries(*old(m)).insert(k, v),
{
    m.insert(k, v);
}

/// `DashMap::remove`: the key is no longer in the map.
#[verifier::external_body]
pub(crate) fn number_map_remove(m: &mut NumberMap, k: u128)
    ensures
        number_entries(*final(m)) == number_entries(*old(m)).remove(k),
{
    m.remove(&k);
}

// ---- connections, by identifier ----

#[verifier::external_type_specification]
#[verifier::external_body]
pub struct ExConnection(quinn::Connection);

pub type ConnMap = dashmap::DashMap<u128, quinn::Connection>;

/// What a map of connections holds.
pub uninterp spec fn conn_entries(m: ConnMap) -> Map<u128, quinn::Connection>;

/// `DashMap::new`: an empty map.
#[verifier::external_body]
pub(crate) fn conn_map() -> (m: ConnMap)
    ensures
        (conn_entries(m) == Map::<u128, quinn::Connection>::empty()),
{
    dashmap::DashMap::new()
}

/// `DashMap::get`: the value of the key, if it is in the map. A connection is a handle, and its
/// clone is a handle to the same connection.
#[verifier::external_body]
pub(crate) fn conn_map_get(m: &ConnMap, k: u128) -> (r: Option<quinn::Connection>)
    ensures
        r == entry(conn_entries(*m), k),
{
    m.get(&k).map(|v| v.value().clone())
}

/// `DashMap::insert`: the key now has the value, whatever it had before.
#[verifier::external_body]
pub(crate) fn conn_map_insert(m: &mut ConnMap, k: u128, v: quinn::Connection)
    ensures
        conn_entries(*final(m)) == conn_entries(*old(m)).insert(k, v),
{
    m.insert(k, v);
}

/// `DashMap::remove`: the key is no longer in the map.
#[verifier::external_body]
pub(crate) fn conn_map_remove(m: &mut ConnMap, k: u128)
    ensures
        conn_entries(*final(m)) == conn_entries(*old(m)).remove(k),
{
    m.remove(&k);
}

// ---- sessions, by session id ----

pub type SessionMap = dashmap::DashMap<String, Arc<Session>>;

/// What a map of sessions holds.
pub uninterp spec fn session_entries(m: SessionMap) -> Map<Seq<char>, Arc<Session>>;

/// `DashMap::new`: an empty map.
#[verifier::external_body]
pub(crate) fn session_map() -> (m: SessionMap)
    ensures
        (session_entries(m) == Map::<Seq<char>, Arc<Session>>::empty()),
{
    dashmap::DashMap::new()
}

/// `DashMap::get`: the value of the key, if it is in the map.
#[verifier::external_body]
pub(crate) fn session_map_get(m: &SessionMap, k: &str) -> (r: Option<Arc<Session>>)
    ensures
        r == entry(session_entries(*m), k@),
{
    m.get(k).map(|v| v.value().clone())
}

/// `DashMap::insert`: the key now has the value, whatever it had before.
#[verifier::external_body]
pub(crate) fn session_map_insert(m: &mut SessionMap, k: String, v: Arc<Session>)
    ensures
        session_entries(*final(m)) == session_entries(*old(m)).insert(k@, v),
{
    m.insert(k, v);
}

/// `DashMap::remove`: the key is no longer in the map.
#[verifier::external_body]
pub(crate) fn session_map_remove(m: &mut SessionMap, k: &str)
    ensures
        session_entries(*final(m)) == session_entries(*old(m)).remove(k@),
{
    m.remove(k);
}

// ---- access tokens, by the token ----

pub type TokenMap = dashmap::DashMap<String, Arc<AccessToken>>;

/// What a map of access tokens holds.
pub uninterp spec fn token_entries(m: TokenMap) -> Map<Seq<char>, Arc<AccessToken>>;

/// `DashMap::new`: an empty map.
#[verifier::external_body]
pub(crate) fn token_map() -> (m: TokenMap)
    ensures
        (token_entries(m) == Map::<Seq<char>, Arc<AccessToken>>::empty()),
{
    dashmap::DashMap::new()
}

/// `DashMap::get`: the value of the key, if it is in the map.
#[verifier::external_body]
pub(crate) fn token_map_get(m: &TokenMap, k: &str) -> (r: Option<Arc<AccessToken>>)
    ensures
        r == entry(token_entries(*m), k@),
{
    m.get(k).map(|v| v.value().clone())
}

/// `DashMap::insert`: the key now has the value, whatever it had before.
#[verifier::external_body]
pub(crate) fn token_map_insert(m: &mut TokenMap, k: String, v: Arc<AccessToken>)
    ensures
        token_entries(*final(m)) == token_entries(*old(m)).insert(k@, v),
{
    m.insert(k, v);
}

/// `DashMap::remove`: the key is no longer in the map.
#[verifier::external_body]
pub(crate) fn token_map_remove(m: &mut TokenMap, k: &str)
    ensures
        token_entries(*final(m)) == token_entries(*old(m)).remove(k@),
{
    m.remove(k);
}

/// The tokens of `m` that do not belong to the session `session_id`.
pub open spec fn without_session(
    m: Map<Seq<char>, Arc<AccessToken>>,
    session_id: Seq<char>,
) -> Map<Seq<char>, Arc<AccessToken>> {
    m.restrict(
        Set::new(|k: Seq<char>| m.dom().contains(k) && m[k].session_id@ != session_id),
    )
}

/// `DashMap::retain` with `AccessToken::outlives`: the entries for which it holds stay, the
/// others go.
#[verifier::external_body]
pub(crate) fn token_map_drop_session(m: &mut TokenMap, session_id: &str)
    ensures
        token_entries(*final(m)) == without_session(token_entries(*old(m)), session_id@),
{
    m.retain(|_, token| token.outlives(session_id));
}

// ---- routes, by listen address ----

/// An address as a key: its family, its bits, its port, its flow information and its scope.
pub type AddrKey = (bool, u128, u16, u32, u32);

pub type RouteMap = dashmap::DashMap<AddrKey, Arc<ServerRoute>>;

/// What a map of routes by listen address holds.
pub uninterp spec fn route_entries(m: RouteMap) -> Map<AddrKey, Arc<ServerRoute>>;

/// `DashMap::new`: an empty map.
#[verifier::external_body]
pub(crate) fn route_map() -> (m: RouteMap)
    ensures
        (route_entries(m) == Map::<AddrKey, Arc<ServerRoute>>::empty()),
{
    dashmap::DashMap::new()
}

/// `DashMap::get`: the value of the key, if it is in the map.
#[verifier::external_body]
pub(crate) fn route_map_get(m: &RouteMap, k: AddrKey) -> (r: Option<Arc<ServerRoute>>)
    ensures
        r == entry(route_entries(*m), k),
{
    m.get(&k).map(|v| v.value().clone())
}

/// `DashMap::insert`: the key now has the value, whatever it had before.
#[verifier::external_body]
pub(crate) fn route_map_insert(m: &mut RouteMap, k: AddrKey, v: Arc<ServerRoute>)
    ensures
        route_entries(*final(m)) == route_entries(*old(m)).insert(k, v),
{
    m.insert(k, v);
}

/// `DashMap::remove`: the key is no longer in the map, and the value that it had comes back.
#[verifier::external_body]
pub(crate) fn route_map_remove(m: &mut RouteMap, k: AddrKey) -> (r: Option<
    Arc<ServerRoute>,
>)
    ensures
        r == entry(route_entries(*old(m)), k),
        route_entries(*final(m)) == route_entries(*old(m)).remove(k),
{
    m.remove(&k).map(|e| e.1)
}

/// `DashMap::iter`: every value once, in no order that is promised.
#[verifier::external_body]
pub(crate) fn route_map_values(m: &RouteMap) -> (r: Vec<Arc<ServerRoute>>)
    ensures
        lists_values(route_entries(*m), r@),
{
    m.iter().map(|e| e.value().clone()).collect()
}

/// `DashMap::len`: the number of keys.
#[verifier::external_body]
pub(crate) fn route_map_len(m: &RouteMap) -> (n: usize)
    ensures
        n == route_entries(*m).len(),
{
    m.len()
}

// ---- routes, by host name ----

pub type HostMap = dashmap::DashMap<String, Arc<ServerRoute>>;

/// What a map of routes by host name holds.
pub uninterp spec fn host_entries(m: HostMap) -> Map<Seq<char>, Arc<ServerRoute>>;

/// `DashMap::new`: an empty map.
#[verifier::external_body]
pub(crate) fn host_map() -> (m: HostMap)
    ensures
        (host_entries(m) == Map::<Seq<char>, Arc<ServerRoute>>::empty()),
{
    dashmap::DashMap::new()
}

/// `DashMap::get`: the value of the key, if it is in the map.
#[verifier::external_body]
pub(crate) fn host_map_get(m: &HostMap, k: &str) -> (r: Option<Arc<ServerRoute>>)
    ensures
        r == entry(host_entries(*m), k@),
{
    m.get(k).map(|v| v.value().clone())
}

/// `DashMap::insert`: the key now has the value, whatever it had before.
#[verifier::external_body]
pub(crate) fn host_map_insert(m: &mut HostMap, k: String, v: Arc<ServerRoute>)
    ensures
        host_entries(*final(m)) == host_entries(*old(m)).insert(k@, v),
{
    m.insert(k, v);
}

/// `DashMap::remove`: the key is no longer in the map, and the value that it had comes back.
#[verifier::external_body]
pub(crate) fn host_map_remove(m: &mut HostMap, k: &str) -> (r: Option<Arc<ServerRoute>>)
    ensures
        r == entry(host_entries(*old(m)), k@),
        host_entries(*final(m)) == host_entries(*old(m)).remove(k@),
{
    m.remove(k).map(|e| e.1)
}

/// `DashMap::clear`: nothing is left in the map.
#[verifier::external_body]
pub(crate) fn host_map_clear(m: &mut HostMap)
    ensures
        (host_entries(*final(m)) == Map::<Seq<char>, Arc<ServerRoute>>::empty()),
{
    m.clear();
}

/// `DashMap::iter`: every value once, in no order that is promised.
#[verifier::external_body]
pub(crate) fn host_map_values(m: &HostMap) -> (r: Vec<Arc<ServerRoute>>)
    ensures
        lists_values(host_entries(*m), r@),
{
    m.iter().map(|e| e.value().clone()).collect()
}

/// `DashMap::len`: the number of keys.
#[verifier::external_body]
pub(crate) fn host_map_len(m: &HostMap) -> (n: usize)
    ensures
        n == host_entries(*m).len(),
{
    m.len()
}

// ---- UDP sessions: their ids by client and route, and the sessions by id ----

/// A client of a route as a key: that of the client's address, and the id of the route.
pub type ClientKey = (bool, u128, u16, u32, u32, u128);

pub type UdpKeyMap = dashmap::DashMap<ClientKey, u64>;

/// What a map of UDP session ids holds.
pub uninterp spec fn udp_key_entries(m: UdpKeyMap) -> Map<ClientKey, u64>;

/// `DashMap::new`: an empty map.
#[verifier::external_body]
pub(crate) fn udp_key_map() -> (m: UdpKeyMap)
    ensures
        (udp_key_entries(m) == Map::<ClientKey, u64>::empty()),
{
    dashmap::DashMap::new()
}

/// `DashMap::get`: the value of the key, if it is in the map.
#[verifier::external_body]
pub(crate) fn udp_key_map_get(m: &UdpKeyMap, k: ClientKey) -> (r: Option<u64>)
    ensures
        r == entry(udp_key_entries(*m), k),
{
    m.get(&k).map(|v| *v.value())
}

/// `DashMap::insert`: the key now has the value, whatever it had before.
#[verifier::external_body]
pub(crate) fn udp_key_map_insert(m: &mut UdpKeyMap, k: ClientKey, v: u64)
    ensures
        udp_key_entries(*final(m)) == udp_key_entries(*old(m)).insert(k, v),
{
    m.insert(k, v);
}

/// `DashMap::remove`: the key is no longer in the map.
#[verifier::external_body]
pub(crate) fn udp_key_map_remove(m: &mut UdpKeyMap, k: ClientKey)
    ensures
        udp_key_entries(*final(m)) == udp_key_entries(*old(m)).remove(k),
{
    m.remove(&k);
}

/// `DashMap::len`: the number of keys.
#[verifier::external_body]
pub(crate) fn udp_key_map_len(m: &UdpKeyMap) -> (n: usize)
    ensures
        n == udp_key_entries(*m).len(),
{
    m.len()
}

pub type UdpIdMap = dashmap::DashMap<u64, UdpSession>;

/// What a map of UDP sessions holds.
pub uninterp spec fn udp_id_entries(m: UdpIdMap) -> Map<u64, UdpSession>;

/// `DashMap::new`: an empty map.
#[verifier::external_body]
pub(crate) fn udp_id_map() -> (m: UdpIdMap)
    ensures
        (udp_id_entries(m) == Map::<u64, UdpSession>::empty()),
{
    dashmap::DashMap::new()
}

/// `DashMap::get`: the value of the key, if it is in the map.
#[verifier::external_body]
pub(crate) fn udp_id_map_get(m: &UdpIdMap, k: u64) -> (r: Option<UdpSession>)
    ensures
        r == entry(udp_id_entries(*m), k),
{
    m.get(&k).map(|v| *v.value())
}

/// `DashMap::insert`: the key now has the value, whatever it had before.
#[verifier::external_body]
pub(crate) fn udp_id_map_insert(m: &mut UdpIdMap, k: u64, v: UdpSession)
    ensures
        udp_id_entries(*final(m)) == udp_id_entries(*old(m)).insert(k, v),
{
    m.insert(k, v);
}

/// `DashMap::remove`: the key is no longer in the map.
#[verifier::external_body]
pub(crate) fn udp_id_map_remove(m: &mut UdpIdMap, k: u64)
    ensures
        udp_id_entries(*final(m)) == udp_id_entries(*old(m)).remove(k),
{
    m.remove(&k);
}

/// `DashMap::iter`: every value once, in no order that is promised.
#[verifier::external_body]
pub(crate) fn udp_id_map_values(m: &UdpIdMap) -> (r: Vec<UdpSession>)
    ensures
        lists_values(udp_id_entries(*m), r@),
{
    m.iter().map(|e| *e.value()).collect()
}

// ---- the number of UDP sessions, by client address ----

pub type SourceMap = dashmap::DashMap<(bool, u128), u32>;

/// What a map of session numbers holds.
pub uninterp spec fn source_entries(m: SourceMap) -> Map<(bool, u128), u32>;

/// `DashMap::new`: an empty map.
#[verifier::external_body]
pub(crate) fn source_map() -> (m: SourceMap)
    ensures
        (source_entries(m) == Map::<(bool, u128), u32>::empty()),
{
    dashmap::DashMap::new()
}

/// `DashMap::get`: the value of the key, if it is in the map.
#[verifier::external_body]
pub(crate) fn source_map_get(m: &SourceMap, k: (bool, u128)) -> (r: Option<u32>)
    ensures
        r == entry(source_entries(*m), k),
{
    m.get(&k).map(|v| *v.value())
}

/// `DashMap::insert`: the key now has the value, whatever it had before.
#[verifier::external_body]
pub(crate) fn source_map_insert(m: &mut SourceMap, k: (bool, u128), v: u32)
    ensures
        source_entries(*final(m)) == source_entries(*old(m)).insert(k, v),
{
    m.insert(k, v);
}

/// The entries of `m` with a number above zero.
pub open spec fn with_sessions(m: Map<(bool, u128), u32>) -> Map<(bool, u128), u32> {
    m.restrict(Set::new(|k: (bool, u128)| m.dom().contains(k) && m[k] > 0))
}

/// `DashMap::retain` with `has_sessions`: the entries for which it holds stay, the others go.
#[verifier::external_body]
pub(crate) fn source_map_drop_idle(m: &mut SourceMap)
    ensures
        source_entries(*final(m)) == with_sessions(source_entries(*old(m))),
{
    m.retain(|_, n| has_sessions(*n));
}

/// A lookup gives the value of a key that is there, and nothing for any other.
pub proof fn lookups_give_what_is_there<K, V>(m: Map<K, V>, k: K)
    ensures
        entry(m, k) is Some <==> m.dom().contains(k),
        m.dom().contains(k) ==> entry(m, k)->0 == m[k],
{
}

/// A list of the values of a map holds each of them, nothing else, and as many as there are keys.
pub proof fn lists_hold_every_value<K, V>(m: Map<K, V>, s: Seq<V>)
    requires
        lists_values(m, s),
    ensures
        s.len() == m.dom().len(),
        forall|k: K| #[trigger] m.dom().contains(k) ==> s.contains(m[k]),
        forall|v: V| #[trigger] s.contains(v) ==> exists|k: K| #[trigger] m.dom().contains(k) && m[k] == v,
{
    let keys = choose|keys: Seq<K>| #[trigger] lists_by(m, keys, s);
    keys.unique_seq_to_set();
    assert forall|k: K| #[trigger] m.dom().contains(k) implies s.contains(m[k]) by {
        assert(keys.to_set().contains(k));
        let i = choose|i: int| 0 <= i < keys.len() && keys[i] == k;
        assert(s[i] == m[keys[i]]);
    }
    assert forall|v: V| #[trigger] s.contains(v) implies exists|k: K| #[trigger]
        m.dom().contains(k) && m[k] == v by {
        let i = choose|i: int| 0 <= i < s.len() && s[i] == v;
        assert(s[i] == m[keys[i]]);
        assert(keys.to_set().contains(keys[i]));
        assert(m.dom().contains(keys[i]));
    }
}

} // verus!
