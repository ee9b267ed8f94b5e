//! The HTTP entrance.
use tunnel_server::acl_store::{AclAction, AclRule, AclSnapshot, AclStore};
use tunnel_server::conn_limiter::ConnLimiter;
use tunnel_server::conn_registry::ConnRegistry;
use tunnel_server::http_proxy::{
    build_head, decide, find_header_end, handle_http, host_for_lookup, http_open, request_host,
    HeadReader, HeadStep, HttpDecision, HttpHeader, HttpOpen, Reply, RequestHead, MAX_HEAD_BYTES,
};
use tunnel_server::ids::{NodeId, RouteId};
use tunnel_server::ip::{parse_ip, SocketAddr};
use tunnel_server::route::{HostTable, RouteType, ServerRoute};
use tunnel_server::tcp_proxy::OpenEvent;

fn header(name: &str, value: &[u8]) -> HttpHeader {
    HttpHeader { name: name.to_string(), value: value.to_vec() }
}

fn peer() -> SocketAddr {
    SocketAddr::new(parse_ip("203.0.113.9").unwrap(), 51234)
}

fn hosts() -> HostTable {
    let mut t = HostTable::new();
    t.insert(ServerRoute {
        id: RouteId::from_u128(1),
        name: "web".to_string(),
        route_type: RouteType::Http,
        enabled: true,
        node_id: NodeId::from_u128(1001),
        listen_host: "0.0.0.0".to_string(),
        listen_port: 0,
        target_host: "192.168.1.100".to_string(),
        target_port: 80,
        hostname: Some("app.example.com".to_string()),
        tls_mode: None,
        limits: None,
    })
    .unwrap();
    t
}

fn deny_all() -> AclStore {
    let mut snap = AclSnapshot::new();
    snap.global.push(AclRule {
        action: AclAction::Deny,
        source_cidr: None,
        source_port: None,
        target_host: None,
        target_port: None,
    });
    AclStore::with_snapshot(snap)
}

fn always(_: &AclRule, _: &SocketAddr, _: &str, _: u16) -> bool {
    true
}

fn answer(buf: &[u8], acl: &AclStore) -> (Reply, bool) {
    let mut limiter = ConnLimiter::new();
    let conns = ConnRegistry::new();
    match handle_http(buf, &hosts(), acl, &mut limiter, &conns, peer(), "http", always) {
        HttpDecision::Reply { reply, route_error, .. } => (reply, route_error),
        HttpDecision::Forward(_) => panic!("no node is online"),
    }
}

#[test]
fn build_head_injects_and_overrides_forwarded_headers() {
    let headers = vec![
        header("Host", b"app.example.com"),
        header("X-Forwarded-For", b"1.2.3.4"),
        header("User-Agent", b"curl/8"),
    ];
    let head = build_head("GET", "/x?q=1", 1, &headers, peer(), "http");
    let s = String::from_utf8(head).unwrap();

    assert!(s.starts_with("GET /x?q=1 HTTP/1.1\r\n"), "head: {s:?}");
    assert!(s.contains("Host: app.example.com\r\n"));
    assert!(s.contains("User-Agent: curl/8\r\n"));
    assert!(s.contains("X-Forwarded-For: 203.0.113.9\r\n"));
    assert!(s.contains("X-Forwarded-Proto: http\r\n"));
    assert!(s.contains("X-Forwarded-Host: app.example.com\r\n"));
    assert!(!s.contains("1.2.3.4"));
    assert!(s.ends_with("\r\n\r\n"));
}

#[test]
fn host_for_lookup_strips_numeric_port_only() {
    assert_eq!(host_for_lookup("app.example.com"), "app.example.com");
    assert_eq!(host_for_lookup("app.example.com:8080"), "app.example.com");
    assert_eq!(host_for_lookup("app.example.com:http"), "app.example.com:http");
}

#[test]
fn find_header_end_detects_crlf_and_bare_lf() {
    assert_eq!(find_header_end(b"GET / HTTP/1.1\r\nHost: a\r\n\r\n"), Some(27));
    assert_eq!(find_header_end(b"GET / HTTP/1.1\nHost: a\n\n"), Some(24));
    assert_eq!(find_header_end(b"GET / HTTP/1.1\r\nHost: a\r\n"), None);
}

#[test]
fn whole_head_is_written() {
    let headers = vec![
        header("hOST", b"a"),
        header("x-forwarded-PROTO", b"gopher"),
        header("Accept", b"*/*"),
    ];
    let head = build_head("POST", "/", 0, &headers, peer(), "https");
    assert_eq!(
        String::from_utf8(head).unwrap(),
        "POST / HTTP/1.0\r\nHost: a\r\nAccept: */*\r\nX-Forwarded-For: 203.0.113.9\r\n\
         X-Forwarded-Proto: https\r\nX-Forwarded-Host: a\r\n\r\n"
    );
}

#[test]
fn forged_headers_are_the_same_as_none() {
    let honest = vec![header("Host", b"a")];
    let forged = vec![
        header("X-Forwarded-Host", b"evil"),
        header("Host", b"a"),
        header("x-forwarded-for", b"10.0.0.1"),
    ];
    assert_eq!(
        build_head("GET", "/", 1, &honest, peer(), "http"),
        build_head("GET", "/", 1, &forged, peer(), "http")
    );
}

#[test]
fn first_host_header_counts() {
    let headers = vec![header("A", b"x"), header("HOST", b"one"), header("Host", b"two")];
    assert_eq!(request_host(&headers).as_deref(), Some("one"));
    assert_eq!(request_host(&vec![header("A", b"x")]), None);
    assert_eq!(request_host(&vec![header("host", b"\xff")]).as_deref(), Some("\u{fffd}"));
}

#[test]
fn head_is_read_in_pieces() {
    let mut reader = HeadReader::new();
    assert_eq!(reader.next(), HeadStep::Read);
    assert_eq!(reader.feed(b"GET / HTTP/1.1\r\n"), HeadStep::Read);
    assert_eq!(reader.feed(b"\r\nbody"), HeadStep::Complete(18));
    assert_eq!(&reader.buf[18..], b"body");
    assert_eq!(reader.feed(b""), HeadStep::Closed);
}

#[test]
fn head_may_not_grow_for_ever() {
    let mut reader = HeadReader::new();
    assert_eq!(reader.feed(&vec![b'a'; MAX_HEAD_BYTES - 1]), HeadStep::Read);
    assert_eq!(reader.feed(b"a"), HeadStep::TooLarge);
    assert_eq!(HeadStep::TooLarge.reply(), Some(Reply::BadRequest));
    assert_eq!(HeadStep::Closed.reply(), None);
    assert_eq!(HeadStep::Complete(4).reply(), None);
    assert_eq!(HeadStep::Read.reply(), None);
}

#[test]
fn bad_requests_are_answered() {
    let open = AclStore::new();
    assert_eq!(answer(b"nonsense\r\n\r\n", &open), (Reply::BadRequest, false));
    assert_eq!(answer(b"GET / HTTP/1.1\r\nHost: x\r\n", &open), (Reply::BadRequest, false));
}

#[test]
fn request_without_a_host_is_400() {
    let open = AclStore::new();
    assert_eq!(answer(b"GET / HTTP/1.1\r\n\r\n", &open), (Reply::BadRequest, false));
    let other = b"GET / HTTP/1.1\r\nX-Host: app.example.com\r\n\r\n";
    assert_eq!(answer(other, &open), (Reply::BadRequest, false));
    assert_eq!(answer(b"GET / HTTP/1.1\r\nHost:\r\n\r\n", &open), (Reply::NotFound, true));
}

#[test]
fn request_without_a_route_is_404() {
    let open = AclStore::new();
    let other = b"GET / HTTP/1.1\r\nHost: other.example.com\r\n\r\n";
    assert_eq!(answer(other, &open), (Reply::NotFound, true));
}

#[test]
fn request_that_is_kept_out_is_403() {
    let get = b"GET / HTTP/1.1\r\nHost: APP.example.com:8080\r\n\r\n";
    assert_eq!(answer(get, &deny_all()), (Reply::Forbidden, false));
}

#[test]
fn request_for_an_offline_node_is_502() {
    let get = b"GET / HTTP/1.1\r\nHost: app.example.com\r\n\r\n";
    assert_eq!(answer(get, &AclStore::new()), (Reply::BadGateway, true));
}

#[test]
fn head_that_was_read_decides() {
    let head = RequestHead {
        method: Some("GET".to_string()),
        path: Some("/".to_string()),
        version: Some(1),
        headers: vec![header("Host", b"nobody.example.com")],
    };
    let mut limiter = ConnLimiter::new();
    let conns = ConnRegistry::new();
    let acl = AclStore::new();
    let d = decide(Some(head), &hosts(), &acl, &mut limiter, &conns, peer(), "http", always);
    assert!(matches!(d, HttpDecision::Reply { reply: Reply::NotFound, .. }));
    let d = decide(None, &hosts(), &acl, &mut limiter, &conns, peer(), "http", always);
    assert!(matches!(d, HttpDecision::Reply { reply: Reply::BadRequest, .. }));
}

#[test]
fn replies_are_whole_responses() {
    assert_eq!(
        Reply::TooMany.bytes(),
        b"HTTP/1.1 429 Too Many Requests\r\nContent-Length: 0\r\nConnection: close\r\n\r\n"
    );
    for r in [Reply::BadRequest, Reply::Forbidden, Reply::NotFound, Reply::BadGateway] {
        assert!(r.bytes().starts_with(b"HTTP/1.1 "));
        assert!(r.bytes().ends_with(b"\r\n\r\n"));
    }
}

#[test]
fn answer_of_the_agent_decides() {
    assert_eq!(http_open(OpenEvent::Opened), HttpOpen::Forward);
    assert_eq!(http_open(OpenEvent::SendFailed), HttpOpen::Drop);
    assert_eq!(
        http_open(OpenEvent::Refused),
        HttpOpen::Reply { reply: Reply::BadGateway, route_error: true }
    );
    assert_eq!(
        http_open(OpenEvent::TimedOut),
        HttpOpen::Reply { reply: Reply::BadGateway, route_error: false }
    );
}
