//! Loading, checking and replacing the configuration.
use tunnel_server::config::{
    ConfigError, ConfigManager, ConfigSnapshot, ReloadError, StoredRoute,
};
use tunnel_server::ids::{NodeId, RouteId};
use tunnel_server::route::{Limits, RouteError, RouteRow, RouteType, ServerRoute};

fn route(id: u128, listen: &str, port: u16) -> ServerRoute {
    ServerRoute {
        id: RouteId::from_u128(id),
        name: format!("route-{id}"),
        route_type: RouteType::Tcp,
        enabled: true,
        node_id: NodeId::from_u128(id + 1000),
        listen_host: listen.to_string(),
        listen_port: port,
        target_host: "192.168.1.100".to_string(),
        target_port: 22,
        hostname: None,
        tls_mode: None,
        limits: None,
    }
}

fn http_route(id: u128, hostname: &str) -> ServerRoute {
    ServerRoute {
        id: RouteId::from_u128(id),
        name: format!("http-{id}"),
        route_type: RouteType::Http,
        enabled: true,
        node_id: NodeId::from_u128(id + 1000),
        listen_host: "0.0.0.0".to_string(),
        listen_port: 0,
        target_host: "192.168.1.100".to_string(),
        target_port: 80,
        hostname: Some(hostname.to_string()),
        tls_mode: None,
        limits: None,
    }
}

fn stored(name: &str, listen_port: i64) -> StoredRoute {
    StoredRoute {
        row: RouteRow {
            id: "11111111-1111-4111-8111-111111111111".to_string(),
            name: name.to_string(),
            node_id: "22222222-2222-4222-8222-222222222222".to_string(),
            route_type: "tcp".to_string(),
            enabled: true,
            listen_host: Some("127.0.0.1".to_string()),
            listen_port: Some(listen_port),
            hostname: None,
            target_host: "192.168.1.100".to_string(),
            target_port: 22,
            tls_mode: None,
            limits: None,
        },
        limits: None,
    }
}

#[test]
fn replace_is_atomic_and_read_lock_free() {
    let mut mgr = ConfigManager::new();
    let before = mgr.snapshot();
    assert!(before.routes.is_empty());

    mgr.replace(ConfigSnapshot { routes: vec![route(1, "127.0.0.1", 8080)] });
    let after = mgr.snapshot();
    assert_eq!(after.routes.len(), 1);
    assert!(before.routes.is_empty(), "old snapshot must be unchanged");
}

#[test]
fn validate_rejects_duplicate_listen() {
    let routes = vec![route(1, "127.0.0.1", 8080), route(2, "127.0.0.1", 8080)];
    let err = ConfigManager::validate(&routes).unwrap_err();
    assert!(err.message().contains("duplicate listen"), "got: {}", err.message());
    assert_eq!(err.message(), "duplicate listen address 127.0.0.1:8080 (route route-2)");
}

#[test]
fn validate_rejects_invalid_listen_host() {
    let routes = vec![route(1, "not-an-ip", 8080)];
    assert!(ConfigManager::validate(&routes).is_err());
}

#[test]
fn validate_accepts_distinct_listens() {
    let routes = vec![route(1, "127.0.0.1", 8080), route(2, "127.0.0.1", 8081)];
    ConfigManager::validate(&routes).unwrap();
}

#[test]
fn validate_accepts_http_routes_by_hostname() {
    let routes = vec![http_route(1, "app.example.com"), http_route(2, "other.example.com")];
    ConfigManager::validate(&routes).unwrap();
}

#[test]
fn validate_rejects_duplicate_hostname() {
    let routes = vec![http_route(1, "app.example.com"), http_route(2, "APP.EXAMPLE.COM")];
    let err = ConfigManager::validate(&routes).unwrap_err();
    assert!(err.message().contains("duplicate hostname"), "got: {}", err.message());
    assert_eq!(err.message(), "duplicate hostname app.example.com (route http-2)");
}

#[test]
fn validate_rejects_http_route_without_hostname() {
    let mut r = http_route(1, "app.example.com");
    r.hostname = None;
    assert!(ConfigManager::validate(&vec![r]).is_err());
}

#[test]
fn first_fault_is_reported() {
    let mut nameless = http_route(2, "x");
    nameless.hostname = None;
    let routes = vec![
        http_route(1, "a"),
        nameless,
        route(3, "not-an-ip", 1),
        http_route(4, "A"),
    ];
    let err = ConfigManager::validate(&routes).unwrap_err();
    assert!(matches!(err, ConfigError::NoHostname { .. }));
    assert_eq!(err.message(), "route http-2 has no hostname");

    let err = ConfigManager::validate(&vec![route(3, "not-an-ip", 1)]).unwrap_err();
    assert_eq!(err.message(), "route route-3 has invalid listen address");
}

#[test]
fn same_port_of_other_family_is_no_duplicate() {
    let routes = vec![
        route(1, "0.0.0.0", 8080),
        route(2, "::", 8080),
        route(3, "127.0.0.1", 8080),
    ];
    ConfigManager::validate(&routes).unwrap();
}

#[test]
fn two_spellings_of_an_address_are_duplicates() {
    let routes = vec![route(1, "::1", 8080), route(2, "0:0:0:0:0:0:0:1", 8080)];
    let err = ConfigManager::validate(&routes).unwrap_err();
    assert_eq!(err.message(), "duplicate listen address [::1]:8080 (route route-2)");
}

#[test]
fn reload_puts_valid_routes_in_place() {
    let mut mgr = ConfigManager::new();
    mgr.reload(vec![stored("a", 8080), stored("b", 8081)]).unwrap();
    let snap = mgr.snapshot();
    assert_eq!(snap.routes.len(), 2);
    assert_eq!(snap.routes[1].name, "b");
}

#[test]
fn refused_reload_leaves_the_configuration() {
    let mut mgr = ConfigManager::new();
    mgr.reload(vec![stored("a", 8080)]).unwrap();
    let err = mgr.reload(vec![stored("b", 9000), stored("c", 9000)]).unwrap_err();
    assert!(matches!(err, ReloadError::Config(ConfigError::DuplicateListen { .. })));
    assert_eq!(mgr.snapshot().routes[0].name, "a");

    let err = mgr.reload(vec![stored("d", 70000)]).unwrap_err();
    assert!(matches!(err, ReloadError::Route(RouteError::ListenPortOutOfRange)));
    assert_eq!(mgr.snapshot().routes.len(), 1);
}

#[test]
fn limits_are_taken_over() {
    let mut mgr = ConfigManager::new();
    let mut limited = stored("a", 8080);
    limited.row.limits = Some("{\"max_connections\":3}".to_string());
    limited.limits = Some(Limits { max_connections: Some(3) });
    mgr.reload(vec![limited]).unwrap();
    assert_eq!(mgr.snapshot().routes[0].limits, Some(Limits { max_connections: Some(3) }));
}

#[test]
fn broadcast_notifies_subscriber() {
    let mut mgr = ConfigManager::new();
    let mut rx = mgr.subscribe();
    mgr.replace(ConfigSnapshot { routes: vec![route(1, "127.0.0.1", 8080)] });
    assert!(rx.try_recv().is_ok(), "subscriber should receive broadcast");
}

#[test]
fn only_a_configuration_in_place_is_announced() {
    let mut mgr = ConfigManager::new();
    let mut rx = mgr.subscribe();
    assert!(mgr.reload(vec![stored("a", -1)]).is_err());
    assert!(rx.try_recv().is_err());
    assert!(mgr.reload(vec![stored("a", 8080)]).is_ok());
    assert!(rx.try_recv().is_ok());
    assert!(rx.try_recv().is_err());
}

#[test]
fn watcher_is_told_of_each_configuration_once() {
    let mut mgr = ConfigManager::new();
    mgr.replace(ConfigSnapshot { routes: vec![] });
    let (mut one, mut two) = (mgr.subscribe(), mgr.subscribe());
    assert_eq!(mgr.next_change(&mut one), Ok(false));
    for _ in 0..2 {
        mgr.replace(ConfigSnapshot { routes: vec![] });
    }
    for rx in [&mut one, &mut two] {
        assert_eq!(mgr.next_change(rx), Ok(true));
        assert_eq!(mgr.next_change(rx), Ok(true));
        assert_eq!(mgr.next_change(rx), Ok(false));
    }
    for _ in 0..ConfigManager::CAPACITY + 3 {
        mgr.replace(ConfigSnapshot { routes: vec![] });
    }
    assert_eq!(mgr.next_change(&mut one), Err(3));
    for _ in 0..ConfigManager::CAPACITY {
        assert_eq!(mgr.next_change(&mut one), Ok(true));
    }
    assert_eq!(mgr.next_change(&mut one), Ok(false));
}
