//! UDP sessions and their limits.
use tunnel_server::conn_registry::ConnRegistry;
use tunnel_server::ids::{NodeId, RouteId};
use tunnel_server::ip::{parse_ip, SocketAddr};
use tunnel_server::route::{RouteTable, RouteType, ServerRoute};
use tunnel_server::udp_proxy::{
    forward_to_agent, local_addrs, max_payload, Offer, Packet, UdpLookup, UdpProxy, UdpRateLimits,
    MAX_UDP_PAYLOAD, UDP_DATAGRAM_HEADER_LEN,
};

fn route(id: u128, listen: &str, port: u16) -> ServerRoute {
    ServerRoute {
        id: RouteId::from_u128(id),
        name: format!("udp-{id}"),
        route_type: RouteType::Udp,
        enabled: true,
        node_id: NodeId::from_u128(id + 1000),
        listen_host: listen.to_string(),
        listen_port: port,
        target_host: "192.168.1.100".to_string(),
        target_port: 53,
        hostname: None,
        tls_mode: None,
        limits: None,
    }
}

fn addr(ip: &str, port: u16) -> SocketAddr {
    SocketAddr::new(parse_ip(ip).unwrap(), port)
}

#[test]
fn reap_expired_removes_stale_session() {
    let mut proxy = UdpProxy::new(60, UdpRateLimits::default());
    let route = route(1, "127.0.0.1", 5353);
    let (id, opened) = proxy.get_or_create_session(&route, addr("127.0.0.1", 9000), 1000);
    assert_eq!(opened.unwrap().client_addr, "127.0.0.1:9000");
    assert_eq!(proxy.session_count(), 1);

    let closed = proxy.reap_expired(1120);

    assert_eq!(proxy.session_count(), 0);
    assert_eq!(closed.len(), 1);
    assert_eq!(closed[0].udp_session_id, id);
    assert_eq!(closed[0].node_id, NodeId::from_u128(1001));
    assert_eq!(proxy.handle_datagram(id, 1120), None);
}

#[test]
fn reap_keeps_fresh_session() {
    let mut proxy = UdpProxy::new(60, UdpRateLimits::default());
    let route = route(1, "127.0.0.1", 5353);
    proxy.get_or_create_session(&route, addr("127.0.0.1", 9000), 1000);
    assert_eq!(proxy.session_count(), 1);

    assert!(proxy.reap_expired(1000).is_empty());

    assert_eq!(proxy.session_count(), 1);
}

#[test]
fn max_payload_caps_at_default_and_header() {
    assert_eq!(max_payload(None), 0);
    assert_eq!(max_payload(Some(65527)), MAX_UDP_PAYLOAD);
    assert_eq!(max_payload(Some(1200)), 1200 - UDP_DATAGRAM_HEADER_LEN);
    assert_eq!(max_payload(Some(5)), 0);
}

#[test]
fn session_limit_drops_new_sessions() {
    let limits = UdpRateLimits { max_sessions_per_ip: 1, ..Default::default() };
    let mut proxy = UdpProxy::new(60, limits);
    let route = route(1, "127.0.0.1", 5353);

    let client1 = addr("10.0.0.1", 1000);
    let client2 = addr("10.0.0.1", 2000);

    assert!(proxy.admit_packet(route.id, client1));
    proxy.get_or_create_session(&route, client1, 0);
    assert_eq!(proxy.session_count(), 1);

    assert!(!proxy.admit_packet(route.id, client2));
    assert_eq!(proxy.dropped_session_limited(), 1);
    assert_eq!(proxy.session_count(), 1);

    assert!(proxy.admit_packet(route.id, client1));
}

#[test]
fn packets_over_the_rate_are_counted() {
    let limits = UdpRateLimits { max_packets_per_sec: 1, ..Default::default() };
    let mut proxy = UdpProxy::new(60, limits);
    assert_eq!(proxy.limits().max_packets_per_sec, 1);
    assert!(proxy.rate_checked(true, true));
    assert!(!proxy.rate_checked(false, true));
    assert_eq!(proxy.dropped_rate_limited(), 1);
    assert!(!proxy.rate_checked(true, false));
    assert_eq!(proxy.dropped_rate_limited(), 2);
    assert_eq!(proxy.dropped_session_limited(), 0);
}

#[test]
fn a_client_keeps_its_session() {
    let mut proxy = UdpProxy::new(60, UdpRateLimits::default());
    let one = route(1, "127.0.0.1", 5353);
    let two = route(2, "127.0.0.1", 5354);
    let client = addr("10.0.0.1", 1000);
    let (first, opened) = proxy.get_or_create_session(&one, client, 0);
    assert_eq!(opened.unwrap().route_id, one.id);
    let (again, opened) = proxy.get_or_create_session(&one, client, 5);
    assert_eq!(first, again);
    assert!(opened.is_none());
    let (other, _) = proxy.get_or_create_session(&two, client, 5);
    assert_ne!(first, other);
    assert_eq!(proxy.session_count(), 2);
    assert_eq!(proxy.handle_datagram(first, 6), Some(client));
    assert_eq!(proxy.handle_datagram(999, 6), None);
}

#[test]
fn clients_in_different_scopes_have_sessions_of_their_own() {
    let mut proxy = UdpProxy::new(60, UdpRateLimits::default());
    let r = route(1, "127.0.0.1", 5353);
    let client = |scope_id: u32| SocketAddr::V6 { ip: 0xfe80 << 112, port: 9, flowinfo: 0, scope_id };
    let (first, opened) = proxy.get_or_create_session(&r, client(2), 0);
    assert_eq!(opened.unwrap().client_addr, "[fe80::%2]:9");
    let (second, _) = proxy.get_or_create_session(&r, client(3), 0);
    assert_ne!(first, second);
    assert_eq!(proxy.handle_datagram(first, 1), Some(client(2)));
    assert_eq!(proxy.handle_datagram(second, 1), Some(client(3)));
}

#[test]
fn a_packet_in_either_direction_keeps_a_session() {
    let mut proxy = UdpProxy::new(60, UdpRateLimits::default());
    let r = route(1, "127.0.0.1", 5353);
    let (id, _) = proxy.get_or_create_session(&r, addr("10.0.0.1", 1), 0);
    proxy.touch(id, 50);
    assert!(proxy.reap_expired(100).is_empty());
    assert!(proxy.handle_datagram(id, 105).is_some());
    assert!(proxy.reap_expired(165).is_empty());
    assert_eq!(proxy.reap_expired(166).len(), 1);
}

#[test]
fn closed_sessions_make_room() {
    let limits = UdpRateLimits { max_sessions_per_ip: 1, ..Default::default() };
    let mut proxy = UdpProxy::new(60, limits);
    let r = route(1, "127.0.0.1", 5353);
    let client = addr("10.0.0.1", 1);
    proxy.get_or_create_session(&r, client, 0);
    assert!(proxy.knows(client.ip()));
    assert!(proxy.has_room(client.ip()));
    assert!(!proxy.admit_packet(r.id, addr("10.0.0.1", 2)));
    assert!(proxy.admit_packet(r.id, addr("10.0.0.2", 2)));
    proxy.reap_expired(61);
    assert!(!proxy.knows(client.ip()));
    assert!(proxy.admit_packet(r.id, addr("10.0.0.1", 2)));
}

#[test]
fn oversized_packets_are_counted() {
    let mut proxy = UdpProxy::new(60, UdpRateLimits::default());
    assert!(proxy.check_size(1200, Some(65527)));
    assert!(!proxy.check_size(1201, Some(65527)));
    assert!(proxy.check_size(1190, Some(1200)));
    assert!(!proxy.check_size(1191, Some(1200)));
    assert!(!proxy.check_size(1, None));
    assert_eq!(proxy.dropped_oversized(), 3);
}

#[test]
fn packet_without_route_or_node_goes_nowhere() {
    let mut routes = RouteTable::new();
    let conns = ConnRegistry::new();
    let at = addr("127.0.0.1", 5353);
    assert!(matches!(forward_to_agent(&routes, &conns, &at), UdpLookup::NoRoute));
    routes.insert(route(1, "127.0.0.1", 5353)).unwrap();
    assert!(matches!(forward_to_agent(&routes, &conns, &at), UdpLookup::Offline));
}

#[test]
fn default_limits() {
    let l = UdpRateLimits::default();
    assert_eq!(l.max_sessions_per_ip, 64);
    assert_eq!(l.max_packets_per_sec, 1000);
    assert_eq!(l.max_bytes_per_sec, 1_000_000);
}

#[test]
fn a_packet_is_offered_before_its_rates_are_asked_for() {
    let limits = UdpRateLimits { max_sessions_per_ip: 1, ..Default::default() };
    let mut proxy = UdpProxy::new(60, limits);
    let r = route(1, "127.0.0.1", 5353);
    let (one, two) = (addr("10.0.0.1", 1), addr("10.0.0.1", 2));
    assert!(matches!(proxy.offer_packet(r.id, one, 1201, Some(65527)), Offer::TooLarge));
    assert!(matches!(proxy.offer_packet(r.id, one, 4, Some(65527)), Offer::AskRates));
    assert!(matches!(proxy.take_packet(&r, one, false, true, 0), Packet::TooFast));
    assert_eq!(proxy.session_count(), 0);
    match proxy.take_packet(&r, one, true, true, 0) {
        Packet::Send { session_id: 0, open: Some(open) } => {
            assert_eq!(open.client_addr, "10.0.0.1:1");
            assert_eq!(open.udp_session_id, 0);
            assert_eq!(open.node_id, NodeId::from_u128(1001));
        }
        _ => panic!("the first packet opens a session"),
    }
    let again = proxy.take_packet(&r, one, true, true, 1);
    assert!(matches!(again, Packet::Send { session_id: 0, open: None }));
    assert!(matches!(proxy.offer_packet(r.id, two, 4, Some(65527)), Offer::TooManySessions));
    assert!(matches!(proxy.offer_packet(r.id, one, 4, Some(65527)), Offer::AskRates));
    assert_eq!(proxy.dropped_oversized(), 1);
    assert_eq!(proxy.dropped_rate_limited(), 1);
    assert_eq!(proxy.dropped_session_limited(), 1);
}

#[test]
fn listeners_are_listed_by_their_routes() {
    let mut routes = RouteTable::new();
    routes.insert(route(9, "127.0.0.1", 5353)).unwrap();
    routes.insert(route(3, "127.0.0.1", 5354)).unwrap();
    let bound =
        vec![addr("127.0.0.1", 5353), addr("127.0.0.1", 1), addr("127.0.0.1", 5354)];
    let listed = local_addrs(&bound, &routes);
    assert_eq!(listed.len(), 2);
    assert_eq!(listed[0], (RouteId::from_u128(3), addr("127.0.0.1", 5354)));
    assert_eq!(listed[1], (RouteId::from_u128(9), addr("127.0.0.1", 5353)));
}
