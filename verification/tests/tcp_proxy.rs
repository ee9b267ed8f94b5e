//! TCP listeners and their connections.
use tunnel_server::acl_store::{AclAction, AclRule, AclStore};
use tunnel_server::conn_limiter::ConnLimiter;
use tunnel_server::conn_registry::ConnRegistry;
use tunnel_server::https_proxy::{forward_passthrough, route_tls, TlsDecision};
use tunnel_server::ids::{NodeId, RouteId};
use tunnel_server::ip::{parse_ip, SocketAddr};
use tunnel_server::route::{HostTable, Limits, RouteTable, RouteType, ServerRoute};
use tunnel_server::tcp_proxy::{
    accept, apply_plan, apply_update, connection_limit, drain_step, forward_tcp, listening,
    open_tcp, reconcile, DrainStep, OpenEvent, Passage, PlanRun, PlanStep, TcpDecision, TcpOpen,
    DRAIN_TIMEOUT_MS,
};

fn route(id: u128, port: u16) -> ServerRoute {
    ServerRoute {
        id: RouteId::from_u128(id),
        name: format!("tcp-{id}"),
        route_type: RouteType::Tcp,
        enabled: true,
        node_id: NodeId::from_u128(id + 1000),
        listen_host: "127.0.0.1".to_string(),
        listen_port: port,
        target_host: "192.168.1.100".to_string(),
        target_port: 22,
        hostname: None,
        tls_mode: None,
        limits: None,
    }
}

fn addr(port: u16) -> SocketAddr {
    SocketAddr::new(parse_ip("127.0.0.1").unwrap(), port)
}

fn never(_: &AclRule, _: &SocketAddr, _: &str, _: u16) -> bool {
    false
}

#[test]
fn unknown_listener_has_no_route() {
    let routes = RouteTable::new();
    let (acl, conns) = (AclStore::new(), ConnRegistry::new());
    let mut limiter = ConnLimiter::new();
    let d = accept(&addr(1), &routes, &acl, &conns, &mut limiter, addr(9), never);
    assert!(matches!(d, TcpDecision::NoRoute));
    assert!(d.is_route_error() && !d.is_matched());
}

#[test]
fn offline_node_is_an_error_of_the_route() {
    let mut routes = RouteTable::new();
    routes.insert(route(1, 2222)).unwrap();
    let (acl, conns) = (AclStore::new(), ConnRegistry::new());
    let mut limiter = ConnLimiter::new();
    let d = accept(&addr(2222), &routes, &acl, &conns, &mut limiter, addr(9), never);
    assert!(matches!(d, TcpDecision::Route(Passage::Offline)));
    assert!(d.is_route_error() && d.is_matched());
    assert_eq!(limiter.active(RouteId::from_u128(1)), 0);
}

#[test]
fn access_rules_come_before_anything_else() {
    let mut routes = RouteTable::new();
    routes.insert(route(1, 2222)).unwrap();
    let mut acl = AclStore::new();
    acl.reload(Some(vec![tunnel_server::acl_store::AclRuleRow {
        id: "1".to_string(),
        tenant_id: "default".to_string(),
        route_id: None,
        action: "deny".to_string(),
        source_cidr: None,
        source_port: None,
        target_host: None,
        target_port: None,
        created_at: "t".to_string(),
    }]));
    let conns = ConnRegistry::new();
    let mut limiter = ConnLimiter::new();
    let asked = |rule: &AclRule, s: &SocketAddr, host: &str, port: u16| {
        assert_eq!(rule.action, AclAction::Deny);
        assert_eq!((s.port(), host, port), (9, "192.168.1.100", 22));
        true
    };
    let d = accept(&addr(2222), &routes, &acl, &conns, &mut limiter, addr(9), asked);
    assert!(matches!(d, TcpDecision::Route(Passage::Denied)));
    assert!(!d.is_route_error() && !d.is_matched());
}

#[test]
fn agent_is_asked_for_the_target() {
    let o = open_tcp(&route(7, 1), addr(51000));
    assert_eq!(o.route_id, RouteId::from_u128(7));
    assert_eq!(o.target_host, "192.168.1.100");
    assert_eq!(o.target_port, 22);
    assert_eq!(o.client_addr.unwrap(), "127.0.0.1:51000");
}

#[test]
fn only_a_refusal_is_an_error_of_the_route() {
    assert_eq!(forward_tcp(OpenEvent::Opened), TcpOpen::Copy);
    assert_eq!(forward_tcp(OpenEvent::Refused), TcpOpen::Drop { route_error: true });
    for ev in [OpenEvent::StreamFailed, OpenEvent::SendFailed, OpenEvent::Unexpected,
        OpenEvent::Closed, OpenEvent::ReadFailed, OpenEvent::TimedOut]
    {
        assert_eq!(forward_tcp(ev), TcpOpen::Drop { route_error: false });
        assert!(!forward_passthrough(ev));
    }
    assert!(forward_passthrough(OpenEvent::Opened));
}

#[test]
fn limits_are_optional() {
    let mut r = route(1, 1);
    assert_eq!(connection_limit(&r), None);
    r.limits = Some(Limits { max_connections: Some(4) });
    assert_eq!(connection_limit(&r), Some(4));
}

#[test]
fn enabled_routes_of_a_type_listen() {
    let mut t = RouteTable::new();
    t.insert(route(1, 1)).unwrap();
    let mut off = route(2, 2);
    off.enabled = false;
    t.insert(off).unwrap();
    let mut udp = route(3, 3);
    udp.route_type = RouteType::Udp;
    t.insert(udp).unwrap();
    let tcp = listening(t.routes(), RouteType::Tcp);
    assert_eq!(tcp.len(), 1);
    assert_eq!(tcp[0].id, RouteId::from_u128(1));
    assert_eq!(listening(t.routes(), RouteType::Udp)[0].id, RouteId::from_u128(3));
}

#[test]
fn listeners_follow_the_routes() {
    let mut off = route(4, 40);
    off.enabled = false;
    let plan = reconcile(&vec![addr(10), addr(20), addr(40)], &vec![route(2, 20), route(3, 30), off])
        .unwrap();
    assert_eq!(plan.remove.len(), 2);
    assert!(plan.remove.contains(&addr(10)) && plan.remove.contains(&addr(40)));
    assert_eq!(plan.update.len(), 1);
    assert_eq!(plan.update[0].id, RouteId::from_u128(2));
    assert_eq!(plan.add.len(), 1);
    assert_eq!(plan.add[0].id, RouteId::from_u128(3));
}

#[test]
fn bad_listen_host_stops_the_change() {
    let mut bad = route(2, 20);
    bad.listen_host = "somewhere".to_string();
    let err = reconcile(&vec![addr(10)], &vec![bad]).unwrap_err();
    assert_eq!(err, "invalid listen_host \"somewhere\"");
}

#[test]
fn updated_route_takes_the_place() {
    let mut t = RouteTable::new();
    t.insert(route(1, 10)).unwrap();
    apply_update(&mut t, &addr(10), route(2, 10)).unwrap();
    assert_eq!(t.lookup(&addr(10)).unwrap().id, RouteId::from_u128(2));
    assert_eq!(t.len(), 1);
}

#[test]
fn connections_go_by_the_new_routes() {
    let mut t = RouteTable::new();
    for (id, port) in [(1, 10), (2, 20), (5, 50)] {
        t.insert(route(id, port)).unwrap();
    }
    let wanted = vec![route(6, 20), route(3, 30)];
    let plan = reconcile(&vec![addr(10), addr(20)], &wanted).unwrap();
    apply_plan(&mut t, plan).unwrap();
    let id = |port: u16| t.lookup(&addr(port)).map(|r| r.id.value);
    assert_eq!((id(10), id(20), id(30), id(50)), (None, Some(6), Some(3), Some(5)));
}

#[test]
fn a_plan_is_carried_out_step_by_step() {
    let mut t = RouteTable::new();
    for (id, port) in [(1, 10), (2, 20)] {
        t.insert(route(id, port)).unwrap();
    }
    let plan = reconcile(&vec![addr(10), addr(20)], &vec![route(6, 20), route(3, 30)]).unwrap();
    let mut run = PlanRun::new(plan);
    let id = |t: &RouteTable, port: u16| t.lookup(&addr(port)).map(|r| r.id.value);
    assert!(matches!(run.step(&mut t), PlanStep::Drain(a) if a == addr(10)));
    assert_eq!((id(&t, 10), id(&t, 20), id(&t, 30)), (Some(1), Some(2), None));
    assert!(matches!(run.step(&mut t), PlanStep::Bind(r) if r.id == RouteId::from_u128(3)));
    assert_eq!((id(&t, 10), id(&t, 20), id(&t, 30)), (None, Some(6), Some(3)));
    assert!(matches!(run.step(&mut t), PlanStep::Done));
    assert_eq!((id(&t, 10), id(&t, 20), id(&t, 30)), (None, Some(6), Some(3)));
}

#[test]
fn a_plan_stops_where_an_address_is_taken() {
    let mut t = RouteTable::new();
    for (id, port) in [(1, 10), (9, 30)] {
        t.insert(route(id, port)).unwrap();
    }
    let plan = reconcile(&vec![addr(10)], &vec![route(2, 20), route(3, 30), route(4, 40)]).unwrap();
    let e = apply_plan(&mut t, plan).unwrap_err();
    let ids = "00000000-0000-0000-0000-000000000009 and 00000000-0000-0000-0000-000000000003";
    assert_eq!(e.message(), format!("duplicate listen 127.0.0.1:30: routes {ids}"));
    let id = |port: u16| t.lookup(&addr(port)).map(|r| r.id.value);
    assert_eq!((id(10), id(20), id(30), id(40)), (None, Some(2), Some(9), None));
}

#[test]
fn draining_ends() {
    assert_eq!(drain_step(0, 0), DrainStep::Drained);
    assert_eq!(drain_step(1, DRAIN_TIMEOUT_MS - 1), DrainStep::Wait);
    assert_eq!(drain_step(1, DRAIN_TIMEOUT_MS), DrainStep::Forced);
}

#[test]
fn server_name_decides_about_tls() {
    let mut hosts = HostTable::new();
    let mut through = route(1, 0);
    through.route_type = RouteType::Https;
    through.hostname = Some("raw.example.com".to_string());
    through.tls_mode = Some("passthrough".to_string());
    hosts.insert(through).unwrap();
    let mut ended = route(2, 0);
    ended.route_type = RouteType::Https;
    ended.hostname = Some("app.example.com".to_string());
    hosts.insert(ended).unwrap();

    let (acl, conns) = (AclStore::new(), ConnRegistry::new());
    let mut limiter = ConnLimiter::new();
    let mut ask = |name: Option<&str>| {
        route_tls(name.map(str::to_string), &hosts, &acl, &conns, &mut limiter, addr(9), never)
    };
    assert!(matches!(ask(None), TlsDecision::Terminate));
    assert!(matches!(ask(Some("nobody.example.com")), TlsDecision::Terminate));
    assert!(matches!(ask(Some("app.example.com")), TlsDecision::Terminate));
    assert!(matches!(ask(Some("RAW.example.com")), TlsDecision::Passthrough(Passage::Offline)));
}
