//! Agents: the handshake, the heartbeat, and connections that reach them.
use tunnel_server::config::StoredRoute;
use tunnel_server::config_sync::{routes_changed, snapshot_payload, ConfigSync};
use tunnel_server::conn_registry::ConnRegistry;
use tunnel_server::event::EventData;
use tunnel_server::ids::{Id, NodeId, RouteId};
use tunnel_server::quic::{
    hello, went_offline, AuthDecision, AuthRequest, Control, ControlAction,
    ControlEvent, ControlMessage, HandshakeEnd, HandshakeEvent, HandshakeMessage, StopReason,
};
use tunnel_server::route::{
    HostTableError, Limits, RouteError, RouteRow, RouteTableError, RouteType, ServerRoute,
};
use tunnel_server::startup::{build_tables, StartError};
use tunnel_server::tls::{
    build_server_config, generate_self_signed, load_or_generate, server_config, settings_for,
    CertSource, SelfSignedCert, TlsError,
};

const NODE_ID: &str = "11111111-1111-4111-8111-111111111111";

fn text(s: &str) -> String {
    s.to_string()
}

fn message(request_id: u64, message: HandshakeMessage) -> HandshakeEvent {
    HandshakeEvent::Message { request_id, message }
}

fn hello_of(major: u16) -> HandshakeMessage {
    HandshakeMessage::Hello { major, agent_version: text("0.1.0") }
}

fn auth_message() -> HandshakeMessage {
    HandshakeMessage::Auth(AuthRequest { node_id: None, credential: Some(text("secret-token")) })
}

fn refusal(end: HandshakeEnd) -> (u64, String, String) {
    match end {
        HandshakeEnd::Refused(f) => (f.request_id, f.code, f.message),
        other => panic!("got {other:?}"),
    }
}

#[test]
fn correct_token_returns_auth_ok() {
    let wait = hello(message(1, hello_of(1)), 1).unwrap();
    let checking = wait.auth(message(2, auth_message())).unwrap();
    assert_eq!(checking.to_check().credential.as_deref(), Some("secret-token"));
    let node_id = Id::parse_str(NODE_ID).unwrap();
    let online = checking
        .decided(
            AuthDecision::Success { node_id, config_version: 7 },
            text("10.0.0.1:4433"),
            text("0.2.0"),
            text("now"),
        )
        .unwrap();
    assert_eq!((online.auth_ok.request_id, online.auth_ok.config_version), (2, 7));
    assert_eq!(online.auth_ok.node_id.to_text(), NODE_ID);
    assert_eq!(online.auth_ok.server_time, "now");
    assert_eq!(online.auth_ok.server_version, "0.2.0");
    assert_eq!(online.snapshot_version, 7);
    assert_eq!(online.agent_version, "0.1.0");
    assert_eq!(online.remote, "10.0.0.1:4433");
    assert_eq!(online.event.event_type, "node.online");
    assert!(matches!(online.event.data, EventData::NodeStatus { node_id, status }
        if node_id == NODE_ID && status == "online"));
}

#[test]
fn wrong_token_returns_auth_fail() {
    let wait = hello(message(1, hello_of(1)), 1).unwrap();
    let checking = wait.auth(message(2, auth_message())).unwrap();
    let failure = AuthDecision::Failure { code: text("AUTH_FAILED"), message: text("no") };
    let end = checking.decided(failure, text("a"), text("v"), text("t")).unwrap_err();
    assert_eq!(refusal(end), (2, text("AUTH_FAILED"), text("no")));
}

#[test]
fn handshake_keeps_its_order() {
    let end = hello(message(4, auth_message()), 1).unwrap_err();
    assert_eq!(refusal(end), (4, text("PROTOCOL_ERROR"), text("first frame must be HELLO")));
    let end = hello(message(4, hello_of(2)), 1).unwrap_err();
    assert_eq!(
        refusal(end),
        (4, text("PROTOCOL_ERROR"), text("unsupported protocol major version"))
    );
    let end = hello(message(1, hello_of(1)), 1).unwrap().auth(message(7, hello_of(1))).unwrap_err();
    assert_eq!(refusal(end), (7, text("PROTOCOL_ERROR"), text("second frame must be AUTH")));
    assert!(matches!(hello(HandshakeEvent::Closed, 1), Err(HandshakeEnd::Closed)));
    assert!(matches!(hello(HandshakeEvent::ReadFailed, 1), Err(HandshakeEnd::Broken)));
    assert!(matches!(hello(HandshakeEvent::Undecodable, 1), Err(HandshakeEnd::Broken)));
}

fn ping(request_id: u64, ts: u64) -> ControlEvent {
    ControlEvent::Message { request_id, message: ControlMessage::Ping { ts } }
}

#[test]
fn server_responds_to_ping() {
    let mut c = Control::new(0, 45);
    assert_eq!(c.step(ping(10, 12345), 30), ControlAction::SendPong { request_id: 10, ts: 12345 });
    assert_eq!(c.step(ControlEvent::Sent { ok: true }, 31), ControlAction::RecordPong);
    assert_eq!(c.step(ControlEvent::Tick, 75), ControlAction::Wait);
    assert_eq!(
        c.step(ControlEvent::Tick, 76),
        ControlAction::Stop { reason: StopReason::HeartbeatTimeout }
    );
}

#[test]
fn heartbeat_timeout_marks_offline() {
    let mut c = Control::new(0, 300);
    let ack = ControlMessage::ConfigAck { config_version: 1, applied: true };
    assert_eq!(
        c.step(ControlEvent::Message { request_id: 1, message: ack }, 200),
        ControlAction::StoreAck { config_version: 1, applied: true }
    );
    assert_eq!(c.step(ControlEvent::Undecodable, 250), ControlAction::Wait);
    assert_eq!(
        c.step(ControlEvent::Tick, 300),
        ControlAction::Stop { reason: StopReason::HeartbeatTimeout }
    );
    assert_eq!(c.step(ping(1, 1), 301), ControlAction::Wait);
}

#[test]
fn configuration_is_sent_on_request() {
    let mut c = Control::new(0, 45);
    let resync = ControlEvent::Message { request_id: 1, message: ControlMessage::ConfigResync };
    assert_eq!(c.step(resync, 1), ControlAction::ReadVersion);
    assert_eq!(
        c.step(ControlEvent::Version { version: Some(6) }, 1),
        ControlAction::SendSnapshot { version: 6 }
    );
    assert_eq!(c.step(ControlEvent::Sent { ok: true }, 1), ControlAction::Wait);
    assert_eq!(c.step(ControlEvent::Push, 1), ControlAction::SendPush);
    assert_eq!(
        c.step(ControlEvent::Sent { ok: false }, 1),
        ControlAction::Stop { reason: StopReason::SendFailed }
    );
    let mut c = Control::new(0, 45);
    c.step(resync, 1);
    assert_eq!(
        c.step(ControlEvent::Version { version: None }, 1),
        ControlAction::Stop { reason: StopReason::VersionUnknown }
    );
}

#[test]
fn a_closed_stream_ends_it() {
    for (ev, reason) in [
        (ControlEvent::StreamClosed, StopReason::StreamClosed),
        (ControlEvent::StreamFailed, StopReason::StreamFailed),
        (ControlEvent::PushClosed, StopReason::PushClosed),
        (ControlEvent::ConnectionClosed, StopReason::ConnectionClosed),
    ] {
        assert_eq!(Control::new(0, 45).step(ev, 1), ControlAction::Stop { reason });
    }
}

fn stored(name: &str, target_port: i64) -> StoredRoute {
    StoredRoute {
        row: RouteRow {
            id: text("11111111-1111-4111-8111-111111111111"),
            name: text(name),
            node_id: text("22222222-2222-4222-8222-222222222222"),
            route_type: text("tcp"),
            enabled: true,
            listen_host: None,
            listen_port: Some(2222),
            hostname: None,
            target_host: text("192.168.1.100"),
            target_port,
            tls_mode: None,
            limits: None,
        },
        limits: None,
    }
}

#[test]
fn agents_are_told_their_routes() {
    let p = snapshot_payload(4, vec![stored("a", 22), stored("b", 23)]).unwrap();
    assert_eq!((p.config_version, p.routes.len()), (4, 2));
    assert_eq!((p.routes[1].name.as_str(), p.routes[1].target_port), ("b", 23));
    let e = snapshot_payload(4, vec![stored("a", 22), stored("b", -1)]).unwrap_err();
    assert!(matches!(e, RouteError::TargetPortOutOfRange));

    let (update, version) = routes_changed(8, vec!["changed"]);
    assert_eq!((update.config_version, version), (8, 8));
    assert_eq!(update.routes, ["changed"]);
    assert!(update.limits.is_none());
}

#[test]
fn messages_go_to_registered_nodes() {
    let mut sync = ConfigSync::new();
    let node = NodeId::from_u128(1);
    assert_eq!(sync.push_message(node), None);
    sync.register(node, 17);
    assert_eq!(sync.push_message(node), Some(17));
    assert_eq!(sync.push_message(NodeId::from_u128(2)), None);
    sync.unregister(node);
    assert_eq!(sync.push_message(node), None);
}

fn route(id: u128, route_type: RouteType, port: u16, hostname: Option<&str>) -> ServerRoute {
    ServerRoute {
        id: RouteId::from_u128(id),
        name: format!("route-{id}"),
        route_type,
        enabled: true,
        node_id: Id::from_u128(77),
        listen_host: text("127.0.0.1"),
        listen_port: port,
        target_host: text("192.168.1.100"),
        target_port: 80,
        hostname: hostname.map(str::to_string),
        tls_mode: None,
        limits: Some(Limits { max_connections: Some(1) }),
    }
}

#[test]
fn node_that_goes_offline_is_forgotten() {
    let node = NodeId::from_u128(77);
    let (mut conns, mut sync) = (ConnRegistry::new(), ConfigSync::new());
    sync.register(node, 3);
    let event = went_offline(&mut conns, &mut sync, node);
    assert_eq!(event.event_type, "node.offline");
    assert!(matches!(event.data, EventData::NodeStatus { status: "offline", .. }));
    assert!(conns.get(node).is_none());
    assert_eq!(sync.push_message(node), None);
}

#[test]
fn tables_are_built_from_the_configuration() {
    let mut off = route(3, RouteType::Http, 0, Some("off.example.com"));
    off.enabled = false;
    let routes = vec![
        route(1, RouteType::Tcp, 10, None),
        route(2, RouteType::Http, 0, Some("A.example.com")),
        off,
        route(4, RouteType::Udp, 20, None),
    ];
    let (by_listen, by_host) = build_tables(&routes).ok().unwrap();
    assert_eq!((by_listen.len(), by_host.len()), (2, 1));
    assert_eq!(by_host.lookup("a.EXAMPLE.com").unwrap().id, RouteId::from_u128(2));
    let clash = vec![route(1, RouteType::Tcp, 10, None), route(2, RouteType::Udp, 10, None)];
    assert!(matches!(
        build_tables(&clash).err().unwrap(),
        StartError::Route(RouteTableError::DuplicateListen { existing, incoming, .. })
            if existing == RouteId::from_u128(1) && incoming == RouteId::from_u128(2)
    ));
    let twice = vec![
        route(1, RouteType::Http, 0, Some("a.example.com")),
        route(2, RouteType::Https, 0, Some("A.example.com")),
    ];
    assert!(matches!(
        build_tables(&twice).err().unwrap(),
        StartError::Host(HostTableError::DuplicateHostname { host, existing, incoming })
            if host == "a.example.com"
                && existing == RouteId::from_u128(1)
                && incoming == RouteId::from_u128(2)
    ));
    let mut lost = route(1, RouteType::Tcp, 10, None);
    lost.listen_host = text("nowhere");
    assert!(matches!(
        build_tables(&vec![lost]).err().unwrap(),
        StartError::Route(RouteTableError::InvalidListenAddr(m))
            if m == "invalid listen_host \"nowhere\""
    ));
}

#[test]
fn kept_certificates_are_used_again() {
    assert_eq!(load_or_generate(Some(true), Some(true)), CertSource::Kept);
    assert_eq!(load_or_generate(Some(true), Some(false)), CertSource::MadeAndKept);
    assert_eq!(load_or_generate(Some(false), Some(true)), CertSource::MadeAndKept);
    assert_eq!(load_or_generate(Some(true), None), CertSource::Made);
    assert_eq!(load_or_generate(None, None), CertSource::Made);
}

#[test]
fn made_certificate_can_be_served() {
    let cert = generate_self_signed(&vec![text("localhost")]).unwrap();
    assert!(server_config(&cert).is_ok());
    let kept = SelfSignedCert::from_der(cert.cert_der.clone(), cert.key_der_bytes.clone());
    assert!(server_config(&kept).is_ok());
    assert!(build_server_config(&vec![text("localhost")]).is_ok());

    let other = generate_self_signed(&vec![text("localhost")]).unwrap();
    let mixed = SelfSignedCert::from_der(cert.cert_der, other.key_der_bytes);
    assert_eq!(server_config(&mixed).err(), Some(TlsError::ServerConfig));
    let broken = SelfSignedCert::from_der(vec![1], vec![2]);
    let e = server_config(&broken).err().unwrap();
    assert_eq!(e.message(), "build rustls server config");
    assert_eq!(settings_for(None).err(), Some(TlsError::Generate));
    assert_eq!(settings_for(Some(broken)).err(), Some(TlsError::ServerConfig));
}

#[test]
fn made_certificate_is_for_its_names() {
    let names = vec![text("tunnel.example.com"), text("localhost")];
    let cert = generate_self_signed(&names).unwrap();
    let (_, x509) = x509_parser::parse_x509_certificate(&cert.cert_der).unwrap();
    let san = x509.subject_alternative_name().unwrap().unwrap();
    let found: Vec<String> = san
        .value
        .general_names
        .iter()
        .map(|n| match n {
            x509_parser::extensions::GeneralName::DNSName(d) => d.to_string(),
            other => panic!("got {other:?}"),
        })
        .collect();
    assert_eq!(found, names);
}
