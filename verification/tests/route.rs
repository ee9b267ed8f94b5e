//! Routes and their tables.
use tunnel_server::ids::{NodeId, RouteId};
use tunnel_server::ip::{parse_ip, SocketAddr};
use tunnel_server::route::{
    parse_route_type, HostTable, HostTableError, Limits, RouteError, RouteRow, RouteTable,
    RouteTableError, RouteType, ServerRoute,
};

fn route(id: u128, name: &str, listen: &str, port: u16) -> ServerRoute {
    ServerRoute {
        id: RouteId::from_u128(id),
        name: name.to_string(),
        route_type: RouteType::Tcp,
        enabled: true,
        node_id: NodeId::from_u128(id + 1000),
        listen_host: listen.to_string(),
        listen_port: port,
        target_host: "192.168.1.100".to_string(),
        target_port: 22,
        hostname: None,
        tls_mode: None,
        limits: None,
    }
}

fn http_route(id: u128, hostname: &str) -> ServerRoute {
    ServerRoute {
        id: RouteId::from_u128(id),
        name: format!("http-{id}"),
        route_type: RouteType::Http,
        enabled: true,
        node_id: NodeId::from_u128(id + 1000),
        listen_host: "0.0.0.0".to_string(),
        listen_port: 0,
        target_host: "192.168.1.100".to_string(),
        target_port: 80,
        hostname: Some(hostname.to_string()),
        tls_mode: None,
        limits: None,
    }
}

fn addr(ip: &str, port: u16) -> SocketAddr {
    SocketAddr::new(parse_ip(ip).unwrap(), port)
}

fn row() -> RouteRow {
    RouteRow {
        id: "11111111-1111-4111-8111-111111111111".to_string(),
        name: "ssh".to_string(),
        node_id: "22222222-2222-4222-8222-222222222222".to_string(),
        route_type: "tcp".to_string(),
        enabled: true,
        listen_host: Some("127.0.0.1".to_string()),
        listen_port: Some(2222),
        hostname: None,
        target_host: "192.168.1.100".to_string(),
        target_port: 22,
        tls_mode: None,
        limits: None,
    }
}

#[test]
fn insert_and_lookup() {
    let mut t = RouteTable::new();
    t.insert(route(1, "a", "127.0.0.1", 8080)).unwrap();
    let found = t.lookup(&addr("127.0.0.1", 8080)).unwrap();
    assert_eq!(found.name, "a");
    assert_eq!(found.node_id, NodeId::from_u128(1001));
}

#[test]
fn duplicate_listen_is_rejected() {
    let mut t = RouteTable::new();
    t.insert(route(1, "a", "127.0.0.1", 8080)).unwrap();
    let err = t.insert(route(2, "b", "127.0.0.1", 8080)).unwrap_err();
    match err {
        RouteTableError::DuplicateListen { existing, incoming, .. } => {
            assert_eq!(existing, RouteId::from_u128(1));
            assert_eq!(incoming, RouteId::from_u128(2));
        }
        other => panic!("expected DuplicateListen, got {other:?}"),
    }
    assert_eq!(t.len(), 1);
}

#[test]
fn invalid_listen_host_is_rejected() {
    let mut t = RouteTable::new();
    let err = t.insert(route(1, "a", "not-an-ip", 8080)).unwrap_err();
    assert!(matches!(err, RouteTableError::InvalidListenAddr(_)));
    assert_eq!(err.message(), "invalid listen address: invalid listen_host \"not-an-ip\"");
}

#[test]
fn try_from_http_route_allows_missing_listen_port() {
    let row = RouteRow {
        id: "11111111-1111-4111-8111-111111111111".to_string(),
        name: "web".to_string(),
        node_id: "22222222-2222-4222-8222-222222222222".to_string(),
        route_type: "http".to_string(),
        enabled: true,
        listen_host: None,
        listen_port: None,
        hostname: Some("app.example.com".to_string()),
        target_host: "192.168.1.100".to_string(),
        target_port: 80,
        tls_mode: None,
        limits: None,
    };
    let r = ServerRoute::try_from(row, None).unwrap();
    assert_eq!(r.route_type, RouteType::Http);
    assert_eq!(r.listen_host, "0.0.0.0");
    assert_eq!(r.listen_port, 0);
    assert_eq!(r.host_key(), Some("app.example.com".to_string()));
}

#[test]
fn try_from_route_row_parses_fields() {
    let r = ServerRoute::try_from(row(), None).unwrap();
    assert_eq!(r.route_type, RouteType::Tcp);
    assert!(r.enabled);
    assert_eq!(r.listen_addr().unwrap(), addr("127.0.0.1", 2222));
    assert_eq!(r.target_port, 22);
    assert_eq!(r.id, RouteId::from_u128(0x11111111111141118111111111111111));
}

#[test]
fn host_key_lowercases_and_is_http_only() {
    assert_eq!(
        http_route(1, "App.Example.COM").host_key(),
        Some("app.example.com".to_string())
    );
    assert_eq!(route(1, "a", "127.0.0.1", 8080).host_key(), None);
}

#[test]
fn host_table_lookup_is_case_insensitive() {
    let mut t = HostTable::new();
    t.insert(http_route(1, "App.Example.COM")).unwrap();
    let found = t.lookup("APP.example.com").unwrap();
    assert_eq!(found.id, RouteId::from_u128(1));
}

#[test]
fn host_table_ignores_non_http_routes() {
    let mut t = HostTable::new();
    t.insert(route(1, "a", "127.0.0.1", 8080)).unwrap();
    assert!(t.is_empty());
}

#[test]
fn host_table_rejects_duplicate_hostname() {
    let mut t = HostTable::new();
    t.insert(http_route(1, "app.example.com")).unwrap();
    let err = t.insert(http_route(2, "APP.EXAMPLE.COM")).unwrap_err();
    assert_eq!(
        err.message(),
        "duplicate hostname app.example.com: routes 00000000-0000-0000-0000-000000000001 and \
         00000000-0000-0000-0000-000000000002"
    );
    let HostTableError::DuplicateHostname { host, existing, incoming } = err;
    assert_eq!(host, "app.example.com");
    assert_eq!(existing, RouteId::from_u128(1));
    assert_eq!(incoming, RouteId::from_u128(2));
    assert_eq!(t.len(), 1);
}

#[test]
fn each_fault_of_a_row_has_its_error() {
    let bad = RouteRow { route_type: "ftp".to_string(), ..row() };
    match ServerRoute::try_from(bad, None) {
        Err(RouteError::UnknownType(t)) => assert_eq!(t, "ftp"),
        other => panic!("got {other:?}"),
    }
    let bad = RouteRow { listen_port: None, ..row() };
    assert!(matches!(ServerRoute::try_from(bad, None), Err(RouteError::NoListenPort)));
    let bad = RouteRow { listen_port: Some(-1), ..row() };
    assert!(matches!(ServerRoute::try_from(bad, None), Err(RouteError::ListenPortOutOfRange)));
    let bad = RouteRow { target_port: 65536, ..row() };
    assert!(matches!(ServerRoute::try_from(bad, None), Err(RouteError::TargetPortOutOfRange)));
    let bad = RouteRow { limits: Some("{".to_string()), ..row() };
    assert!(matches!(ServerRoute::try_from(bad, None), Err(RouteError::MalformedLimits)));
    let bad = RouteRow { id: "1".to_string(), ..row() };
    assert!(matches!(ServerRoute::try_from(bad, None), Err(RouteError::InvalidRouteId)));
    let bad = RouteRow { node_id: "".to_string(), ..row() };
    assert!(matches!(ServerRoute::try_from(bad, None), Err(RouteError::InvalidNodeId)));
}

#[test]
fn empty_limits_are_no_limits() {
    let with = Some(Limits { max_connections: Some(1) });
    let empty = RouteRow { limits: Some("".to_string()), ..row() };
    assert_eq!(ServerRoute::try_from(empty, with).unwrap().limits, None);
    let set = RouteRow { limits: Some("{}".to_string()), ..row() };
    assert_eq!(ServerRoute::try_from(set, with).unwrap().limits, with);
}

#[test]
fn removed_route_is_gone_and_its_place_free() {
    let mut t = RouteTable::new();
    t.insert(route(1, "a", "127.0.0.1", 8080)).unwrap();
    t.insert(route(2, "b", "127.0.0.1", 8081)).unwrap();
    assert_eq!(t.routes().len(), 2);
    assert_eq!(t.remove(&addr("127.0.0.1", 8080)).unwrap().name, "a");
    assert!(t.remove(&addr("127.0.0.1", 8080)).is_none());
    assert!(t.lookup(&addr("127.0.0.1", 8080)).is_none());
    assert!(!t.is_empty());
    t.insert(route(3, "c", "127.0.0.1", 8080)).unwrap();
    assert_eq!(t.lookup(&addr("127.0.0.1", 8080)).unwrap().name, "c");
}

#[test]
fn an_ipv4_address_is_not_the_ipv6_one_with_its_bits() {
    let mut t = RouteTable::new();
    t.insert(route(1, "four", "0.0.0.1", 80)).unwrap();
    t.insert(route(2, "six", "::1", 80)).unwrap();
    assert_eq!(t.lookup(&addr("0.0.0.1", 80)).unwrap().name, "four");
    assert_eq!(t.lookup(&addr("::1", 80)).unwrap().name, "six");
}

#[test]
fn reconcile_rebuilds_the_host_table() {
    let mut t = HostTable::new();
    t.insert(http_route(1, "old.example.com")).unwrap();
    let mut off = http_route(2, "off.example.com");
    off.enabled = false;
    t.reconcile(&vec![
        http_route(3, "New.example.com"),
        off,
        route(4, "tcp", "127.0.0.1", 1),
        http_route(5, "new.EXAMPLE.com"),
    ]);
    assert_eq!(t.len(), 1);
    assert_eq!(t.routes()[0].id, RouteId::from_u128(5));
    assert!(t.lookup("old.example.com").is_none());
    assert!(t.lookup("off.example.com").is_none());
    assert_eq!(t.remove("NEW.example.com").unwrap().id, RouteId::from_u128(5));
    assert!(t.is_empty());
}

#[test]
fn only_https_routes_pass_tls_through() {
    let mut r = http_route(1, "a");
    r.tls_mode = Some("passthrough".to_string());
    assert!(!r.tls_passthrough());
    r.route_type = RouteType::Https;
    assert!(r.tls_passthrough());
    r.tls_mode = Some("terminate".to_string());
    assert!(!r.tls_passthrough());
}

#[test]
fn type_names_are_exact() {
    assert_eq!(parse_route_type("udp"), Some(RouteType::Udp));
    assert_eq!(parse_route_type("https"), Some(RouteType::Https));
    assert_eq!(parse_route_type("HTTP"), None);
}

#[test]
fn agent_gets_the_target_without_the_listener() {
    let c = route(7, "db", "127.0.0.1", 5432).to_route_config();
    assert_eq!(c.id, RouteId::from_u128(7));
    assert_eq!(c.target_host, "192.168.1.100");
    assert_eq!(c.target_port, 22);
    assert_eq!(c.hostname, None);
}

#[test]
fn faults_of_a_row_are_told_in_words() {
    let told = |e: RouteError| e.message();
    assert_eq!(told(RouteError::UnknownType("ftp".to_string())), "unknown route type \"ftp\"");
    assert_eq!(told(RouteError::NoListenPort), "route has no listen_port");
    assert_eq!(told(RouteError::ListenPortOutOfRange), "listen_port out of range");
    assert_eq!(told(RouteError::TargetPortOutOfRange), "target_port out of range");
    assert_eq!(told(RouteError::MalformedLimits), "parse route limits");
    assert_eq!(told(RouteError::InvalidRouteId), "invalid route id");
    assert_eq!(told(RouteError::InvalidNodeId), "invalid node id");
}
