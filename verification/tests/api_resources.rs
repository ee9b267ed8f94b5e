//! Nodes, routes, access rules, the audit log and snapshots over the API.
use tunnel_server::acl_store::AclRuleRow;
use tunnel_server::api::acl::{
    acl_rule_for, create_acl_rule, delete_acl_rule, rule_after, rule_response, CreateAclRuleRequest,
};
use tunnel_server::api::admin::{
    download, invalid_snapshot, snapshot_text, upload, Download, Upload,
};
use tunnel_server::api::audit::{audit_entry, default_limit, list_audit_logs, AuditQuery, AuditRow};
use tunnel_server::api::health::{health, ready};
use tunnel_server::api::nodes::{
    bootstrap_credential, check_name, create_credential, create_node, credential_for,
    default_credential_type, delete_node, existing_node, node_after, node_response, node_written,
    revoke_credential, update_node, CreateCredentialRequest, CreateNodeRequest, CredentialRow,
    NodeRow, UpdateNodeRequest,
};
use tunnel_server::api::rbac::Permission;
use tunnel_server::api::routes::{
    check_conflict, config_push, conflict_queries, create_route, created, default_true, deleted,
    existing_route, parse_tls_mode, record, route_after, route_response, route_type_str,
    set_enabled, tls_mode_str, update_route, updated, ConflictQuery, CreateRouteRequest,
    RouteDetailRow, TlsMode, UpdateRouteRequest,
};
use tunnel_server::api::ws::{forward_events, WsAction, WsEvent};
use tunnel_server::api::{map_db_error, AuditMeta, DbError};
use tunnel_server::clock::now_rfc3339;
use tunnel_server::event::EventData;
use tunnel_server::ids::Id;
use tunnel_server::ip::IpAddr;
use tunnel_server::readiness::Readiness;
use tunnel_server::route::{Limits, RouteType};
use tunnel_server::session::User;

fn text(s: &str) -> String {
    s.to_string()
}

fn user(role: &str) -> User {
    User { id: text("u1"), username: text("someone"), email: None, role: text(role) }
}

fn node(name: &str) -> NodeRow {
    NodeRow {
        id: text("n1"),
        name: text(name),
        description: Some(text("old")),
        status: text("pending"),
        hostname: None,
        platform: None,
        architecture: None,
        agent_version: None,
        remote_addr: None,
        connected_at: None,
        last_seen_at: None,
        config_version: 0,
        applied_config_version: 0,
        config_status: text("pending"),
    }
}

fn tcp_request(name: &str) -> CreateRouteRequest {
    CreateRouteRequest {
        name: text(name),
        node_id: text("n1"),
        route_type: RouteType::Tcp,
        enabled: default_true(),
        listen_host: None,
        listen_port: Some(2222),
        hostname: None,
        target_host: text("192.168.1.100"),
        target_port: 22,
        tls_mode: None,
        limits: None,
    }
}

fn http_request(name: &str) -> CreateRouteRequest {
    CreateRouteRequest {
        route_type: RouteType::Http,
        listen_port: None,
        hostname: Some(text(" app.example.com ")),
        ..tcp_request(name)
    }
}

fn no_change() -> UpdateRouteRequest {
    UpdateRouteRequest {
        name: None,
        node_id: None,
        route_type: None,
        enabled: None,
        listen_host: None,
        listen_port: None,
        hostname: None,
        target_host: None,
        target_port: None,
        tls_mode: None,
        limits: None,
    }
}

fn stored() -> RouteDetailRow {
    RouteDetailRow {
        id: text("r1"),
        name: text("ssh"),
        node_id: text("n1"),
        route_type: text("tcp"),
        enabled: true,
        listen_host: Some(text("0.0.0.0")),
        listen_port: Some(2222),
        hostname: None,
        target_host: text("192.168.1.100"),
        target_port: 22,
        tls_mode: Some(text("disabled")),
        status: text("draft"),
        limits: None,
    }
}

/// Loopback addresses are forbidden; nothing else is.
fn loopback_only(ip: IpAddr) -> Option<&'static str> {
    match ip {
        IpAddr::V4(v) if v >> 24 == 127 => Some("loopback"),
        IpAddr::V6(1) => Some("loopback"),
        _ => None,
    }
}

#[test]
fn node_crud_and_duplicate_name_conflict() {
    let draft = create_node(
        &user("admin"),
        CreateNodeRequest { name: text(" home "), description: None },
    )
    .unwrap();
    assert_eq!(draft.name, "home");
    assert!(draft.ask_name);
    assert!(check_name(&draft, false).is_ok());
    let e = check_name(&draft, true).unwrap_err();
    assert_eq!((e.status, e.code), (409, "DUPLICATE_NAME"));
    assert_eq!(e.message, "node \"home\" already exists");

    let same = UpdateNodeRequest { name: Some(text("home")), description: None };
    let d = update_node(&node("home"), same).unwrap();
    assert!(!d.ask_name);
    assert_eq!(d.description.as_deref(), Some("old"));
    let renamed = UpdateNodeRequest { name: Some(text("nas")), description: Some(text("new")) };
    let d = update_node(&node("home"), renamed).unwrap();
    assert!(d.ask_name);
    assert_eq!((d.name.as_str(), d.description.as_deref()), ("nas", Some("new")));

    let f = node_written(&user("admin"), &text("n1"), &text("nas"), false);
    assert_eq!(f.audit.action, "node.update");
    assert_eq!(f.event.event_type, "node.updated");
    let f = node_written(&user("admin"), &text("n1"), &text("nas"), true);
    assert_eq!(f.audit.action, "node.create");
    assert_eq!(f.event.event_type, "node.created");
    assert_eq!(delete_node(&user("admin"), &text("n1"), true).unwrap().action, "node.delete");
    let e = delete_node(&user("admin"), &text("n1"), false).unwrap_err();
    assert_eq!((e.status, e.code), (404, "NODE_NOT_FOUND"));
}

#[test]
fn nodes_are_answered_as_stored() {
    assert_eq!(node_response(node("home")).name, "home");
    assert_eq!(node_after(Some(node("home")), true).unwrap().status, "pending");
    assert_eq!(node_after(None, true).unwrap_err().message, "node not found after create");
    assert_eq!(node_after(None, false).unwrap_err().message, "node not found after update");
    assert!(existing_node(&user("viewer"), Permission::NodesRead, Some(node("a"))).is_ok());
    let e = existing_node(&user("viewer"), Permission::NodesWrite, Some(node("a"))).unwrap_err();
    assert_eq!(e.status, 403);
    let e = existing_node(&user("viewer"), Permission::NodesRead, None).unwrap_err();
    assert_eq!(e.status, 404);
}

#[test]
fn nodes_need_a_name() {
    let body = CreateNodeRequest { name: text(" "), description: None };
    assert_eq!(create_node(&user("operator"), body).unwrap_err().code, "INVALID_NAME");
    let body = UpdateNodeRequest { name: Some(text("")), description: None };
    assert_eq!(update_node(&node("a"), body).unwrap_err().code, "INVALID_NAME");
}

#[test]
fn admin_full_and_operator_write_nodes() {
    for role in ["admin", "operator"] {
        let body = CreateNodeRequest { name: text("x"), description: None };
        assert!(create_node(&user(role), body).is_ok());
    }
    let body = CreateNodeRequest { name: text("x"), description: None };
    assert_eq!(create_node(&user("viewer"), body).unwrap_err().code, "FORBIDDEN");
}

#[test]
fn both_credential_types_are_issued() {
    let body = |t: &str, exp: Option<&str>| CreateCredentialRequest {
        credential_type: text(t),
        expires_at: exp.map(str::to_string),
    };
    let admin = user("admin");
    assert_eq!(default_credential_type(), "token");
    assert!(create_credential(&admin, &body("token", None)).is_ok());
    assert!(create_credential(&admin, &body("bootstrap", Some("2030-01-02T03:04:05Z"))).is_ok());
    assert!(create_credential(&admin, &body("token", Some("2030-01-02T03:04:05+02:00"))).is_ok());
    assert!(create_credential(&admin, &body("token", Some(&now_rfc3339()))).is_ok());
    let e = create_credential(&admin, &body("password", None)).unwrap_err();
    assert_eq!((e.status, e.code), (422, "INVALID_TYPE"));
    let e = create_credential(&admin, &body("token", Some("tomorrow"))).unwrap_err();
    assert_eq!((e.status, e.code), (422, "INVALID_EXPIRES_AT"));
    let e = create_credential(&user("viewer"), &body("token", None)).unwrap_err();
    assert_eq!(e.status, 403);

    let (c, a, shown) =
        credential_for(&admin, &text("c1"), &text("n1"), body("token", None), text("s3"), true).unwrap();
    assert_eq!((shown.id.as_str(), shown.token.as_str(), c.token.as_str()), ("c1", "s3", "s3"));
    assert_eq!((c.id.as_str(), c.node_id.as_str(), c.credential_type.as_str()), ("c1", "n1", "token"));
    assert_eq!(a.action, "credential.create");
    assert!(credential_for(&admin, &text("c1"), &text("n1"), body("token", None), text("s3"), false)
        .is_err());
    let c = bootstrap_credential(text("c2"), &text("n1"), text("s4"));
    assert_eq!((c.credential_type.as_str(), c.token.as_str()), ("bootstrap", "s4"));
}

#[test]
fn credentials_are_revoked_for_their_node_only() {
    let row = CredentialRow { id: text("c1"), node_id: text("n1"), expires_at: None, revoked_at: None };
    let admin = user("admin");
    assert_eq!(
        revoke_credential(&admin, "n1", &text("c1"), Some(&row)).unwrap().action,
        "credential.revoke"
    );
    let e = revoke_credential(&admin, "n2", &text("c1"), Some(&row)).unwrap_err();
    assert_eq!(e.message, "credential does not belong to node");
    let e = revoke_credential(&admin, "n1", &text("c1"), None).unwrap_err();
    assert_eq!(e.message, "credential does not exist");
}

#[test]
fn route_crud_and_conflict_validation() {
    let admin = user("admin");
    let input = create_route(&admin, tcp_request(" ssh "), false, loopback_only).unwrap();
    assert_eq!(input.name, "ssh");
    assert_eq!(input.listen_host.as_deref(), Some("0.0.0.0"));
    assert_eq!(input.tls_mode, TlsMode::Disabled);
    assert_eq!(
        conflict_queries(&input),
        [ConflictQuery::NodeExists, ConflictQuery::NameTaken, ConflictQuery::ListenTaken]
    );
    let rec = record(&text("r1"), &input);
    assert_eq!((rec.route_type, rec.tls_mode), ("tcp", "disabled"));
    assert_eq!((rec.listen_port, rec.target_port), (Some(2222), 22));
    let e = check_conflict(&input, ConflictQuery::ListenTaken, true).unwrap_err();
    assert_eq!((e.status, e.code), (409, "DUPLICATE_LISTEN"));
    assert_eq!(e.message, "listen 0.0.0.0:2222 already in use");
    let e = check_conflict(&input, ConflictQuery::NameTaken, true).unwrap_err();
    assert_eq!((e.code, e.message.as_str()), ("DUPLICATE_NAME", "route \"ssh\" already exists"));
    let e = check_conflict(&input, ConflictQuery::NodeExists, false).unwrap_err();
    assert_eq!((e.status, e.code), (404, "NODE_NOT_FOUND"));
    assert!(check_conflict(&input, ConflictQuery::NodeExists, true).is_ok());

    let web = create_route(&admin, http_request("web"), false, loopback_only).unwrap();
    assert_eq!(web.hostname.as_deref(), Some("app.example.com"));
    let e = check_conflict(&web, ConflictQuery::HostnameTaken, true).unwrap_err();
    assert_eq!((e.status, e.code), (409, "DUPLICATE_HOSTNAME"));

    let patch = UpdateRouteRequest { target_port: Some(2222), ..no_change() };
    let changed = update_route(&stored(), None, patch, false, loopback_only).unwrap();
    assert_eq!(changed.target_port, 2222);
    assert_eq!(changed.name, "ssh");
}

#[test]
fn route_validation_names_the_fault() {
    let admin = user("admin");
    let code = |r: CreateRouteRequest| create_route(&admin, r, false, loopback_only).unwrap_err().code;
    assert_eq!(code(CreateRouteRequest { name: text(" "), ..tcp_request("x") }), "INVALID_NAME");
    assert_eq!(code(CreateRouteRequest { node_id: text(""), ..tcp_request("x") }), "INVALID_NODE");
    assert_eq!(code(CreateRouteRequest { target_host: text(""), ..tcp_request("x") }), "INVALID_TARGET");
    assert_eq!(code(CreateRouteRequest { target_port: 0, ..tcp_request("x") }), "INVALID_PORT");
    assert_eq!(code(CreateRouteRequest { listen_port: Some(0), ..tcp_request("x") }), "INVALID_PORT");
    assert_eq!(code(CreateRouteRequest { listen_port: None, ..tcp_request("x") }), "INVALID_LISTEN");
    assert_eq!(
        code(CreateRouteRequest { listen_host: Some(text("nowhere")), ..tcp_request("x") }),
        "INVALID_LISTEN"
    );
    assert_eq!(
        code(CreateRouteRequest { hostname: Some(text("h")), ..tcp_request("x") }),
        "INVALID_HOSTNAME"
    );
    assert_eq!(code(CreateRouteRequest { hostname: None, ..http_request("x") }), "INVALID_HOSTNAME");
    assert_eq!(
        code(CreateRouteRequest { listen_port: Some(80), ..http_request("x") }),
        "INVALID_LISTEN"
    );
    let e = create_route(&user("viewer"), tcp_request("x"), false, loopback_only).unwrap_err();
    assert_eq!(e.code, "FORBIDDEN");
}

#[test]
fn forbidden_targets_are_refused_unless_allowed() {
    let admin = user("admin");
    for target in ["127.0.0.1", " 127.0.0.1 ", "::1"] {
        let r = CreateRouteRequest { target_host: text(target), ..tcp_request("x") };
        let e = create_route(&admin, r, false, loopback_only).unwrap_err();
        assert_eq!((e.status, e.code), (422, "FORBIDDEN_TARGET"));
        let r = CreateRouteRequest { target_host: text(target), ..tcp_request("x") };
        assert!(create_route(&admin, r, true, loopback_only).is_ok());
    }
    for target in ["192.168.1.100", "db.internal", "localhost"] {
        let r = CreateRouteRequest { target_host: text(target), ..tcp_request("x") };
        assert!(create_route(&admin, r, false, loopback_only).is_ok());
    }
    let patch = UpdateRouteRequest { target_host: Some(text("127.0.0.2")), ..no_change() };
    let e = update_route(&stored(), None, patch, false, loopback_only).unwrap_err();
    assert_eq!(
        e.message,
        "target 127.0.0.2 is forbidden (loopback); set security.allow_unsafe_targets to allow it"
    );
}

/// The metadata address, and loopback, link-local and multicast addresses.
fn dangerous(ip: IpAddr) -> Option<&'static str> {
    match ip {
        IpAddr::V4(0xa9fe_a9fe) => Some("metadata"),
        IpAddr::V4(v) if v >> 24 == 127 => Some("loopback"),
        IpAddr::V4(v) if v >> 16 == 0xa9fe => Some("link-local"),
        IpAddr::V4(v) if v >> 28 == 0xe => Some("multicast"),
        IpAddr::V6(1) => Some("loopback"),
        IpAddr::V6(v) if v >> 118 == 0x3fa => Some("link-local"),
        IpAddr::V6(v) if v >> 120 == 0xff => Some("multicast"),
        _ => None,
    }
}

fn to_target(port: u16, target: &str, target_port: u16) -> CreateRouteRequest {
    CreateRouteRequest {
        listen_port: Some(port),
        target_host: text(target),
        target_port,
        ..tcp_request(&format!("r{port}"))
    }
}

#[test]
fn route_rejects_ssrf_targets_by_default() {
    for (port, target) in [
        (1234, "169.254.169.254"),
        (1235, "127.0.0.1"),
        (1236, "169.254.1.2"),
        (1237, "224.0.0.1"),
        (1238, "::1"),
        (1239, "fe80::1"),
        (1240, "ff02::1"),
    ] {
        let r = to_target(port, target, 22);
        let e = create_route(&user("admin"), r, false, dangerous).unwrap_err();
        assert_eq!((e.status, e.code), (422, "FORBIDDEN_TARGET"), "target {target}");
    }
}

#[test]
fn route_allows_private_and_hostname_targets() {
    for (port, target) in [(1241, "192.168.1.100"), (1242, "db.internal")] {
        let r = to_target(port, target, 22);
        assert!(create_route(&user("admin"), r, false, dangerous).is_ok(), "target {target}");
    }
}

#[test]
fn route_allows_unsafe_targets_when_configured() {
    let r = to_target(1243, "169.254.169.254", 80);
    assert!(create_route(&user("admin"), r, true, dangerous).is_ok());
}

#[test]
fn route_validation_node_not_found_and_invalid_port() {
    let ghost = "99999999-9999-4999-8999-999999999999";
    let r = CreateRouteRequest { node_id: text(ghost), ..to_target(1234, "h", 1) };
    let input = create_route(&user("admin"), r, false, dangerous).unwrap();
    let e = check_conflict(&input, ConflictQuery::NodeExists, false).unwrap_err();
    assert_eq!((e.status, e.code), (404, "NODE_NOT_FOUND"));

    let fault = |r: CreateRouteRequest| {
        let e = create_route(&user("admin"), r, false, dangerous).unwrap_err();
        (e.status, e.code)
    };
    assert_eq!(fault(to_target(1234, "h", 0)), (422, "INVALID_PORT"));
    let r = CreateRouteRequest { listen_port: None, ..to_target(1234, "h", 1) };
    assert_eq!(fault(r), (422, "INVALID_LISTEN"));
    let r = CreateRouteRequest { hostname: None, target_host: text("h"), ..http_request("r") };
    assert_eq!(fault(r), (422, "INVALID_HOSTNAME"));
}

#[test]
fn changing_the_type_drops_what_no_longer_fits() {
    let patch = UpdateRouteRequest {
        route_type: Some(RouteType::Https),
        hostname: Some(text("h")),
        ..no_change()
    };
    let i = update_route(&stored(), None, patch, false, loopback_only).unwrap();
    assert_eq!((i.listen_host, i.listen_port), (None, None));
    assert_eq!(i.hostname.as_deref(), Some("h"));
    let patch = UpdateRouteRequest { route_type: Some(RouteType::Http), ..no_change() };
    let e = update_route(&stored(), None, patch, false, loopback_only).unwrap_err();
    assert_eq!(e.code, "INVALID_HOSTNAME");
}

#[test]
fn limits_survive_a_change() {
    let row = RouteDetailRow { limits: Some(text("{}")), ..stored() };
    let kept = Some(Limits { max_connections: Some(2) });
    let i = update_route(&row, kept, no_change(), false, loopback_only).unwrap();
    assert_eq!(i.limits, kept);
    let i = update_route(&stored(), kept, no_change(), false, loopback_only).unwrap();
    assert_eq!(i.limits, None);
}

#[test]
fn route_enable_disable_and_audit() {
    let admin = user("admin");
    let on = set_enabled(&admin, &text("r1"), &stored(), true);
    let off = set_enabled(&admin, &text("r1"), &stored(), false);
    assert_eq!((on.audit.action, off.audit.action), ("route.enable", "route.disable"));
    assert!(matches!(off.audit.metadata, AuditMeta::Enabled { enabled: false }));
    assert_eq!(on.bumps, ["n1"]);
    assert_eq!(on.events[0].event_type, "route.updated");
    assert_eq!(on.events[1].event_type, "config.updated");

    let input = create_route(&admin, tcp_request("ssh"), false, loopback_only).unwrap();
    let f = created(&admin, &text("r1"), &input);
    assert_eq!((f.audit.action, f.events[0].event_type), ("route.create", "route.created"));
    let f = deleted(&admin, &text("r1"), &stored());
    assert_eq!((f.audit.action, f.events[0].event_type), ("route.delete", "route.deleted"));
    assert!(matches!(&f.events[1].data, EventData::Config { node_id } if node_id == "n1"));
}

#[test]
fn moving_a_route_tells_both_nodes() {
    let admin = user("admin");
    let patch = UpdateRouteRequest { node_id: Some(text("n2")), ..no_change() };
    let input = update_route(&stored(), None, patch, false, loopback_only).unwrap();
    let f = updated(&admin, &text("r1"), &input, &text("n1"));
    assert_eq!(f.bumps, ["n2", "n1"]);
    let input = update_route(&stored(), None, no_change(), false, loopback_only).unwrap();
    assert_eq!(updated(&admin, &text("r1"), &input, &text("n1")).bumps, ["n1"]);
}

#[test]
fn configuration_is_pushed_to_real_nodes() {
    let id = "00000000-0000-0000-0000-000000000007";
    assert_eq!(config_push(id, 5), Some((Id::from_u128(7), 5)));
    assert_eq!(config_push(id, -1), Some((Id::from_u128(7), 0)));
    assert_eq!(config_push("n1", 5), None);
}

#[test]
fn routes_are_answered_as_stored() {
    let r = route_response(stored(), None);
    assert_eq!((r.route_type, r.listen_port, r.status.as_str()), (RouteType::Tcp, Some(2222), "draft"));
    assert!(route_after(Some(stored()), None, true).is_ok());
    assert_eq!(route_after(None, None, true).unwrap_err().message, "route not found after create");
    let e = existing_route(&user("viewer"), Permission::RoutesRead, None).unwrap_err();
    assert_eq!((e.status, e.code), (404, "ROUTE_NOT_FOUND"));
}

#[test]
fn names_of_types_and_modes() {
    for (t, s) in [(RouteType::Tcp, "tcp"), (RouteType::Udp, "udp"), (RouteType::Http, "http"), (RouteType::Https, "https")] {
        assert_eq!(route_type_str(t), s);
    }
    for m in [TlsMode::Terminate, TlsMode::Passthrough, TlsMode::Disabled] {
        assert_eq!(parse_tls_mode(Some(tls_mode_str(m))), Some(m));
    }
    assert_eq!(parse_tls_mode(Some("none")), None);
    assert_eq!(parse_tls_mode(None), None);
}

fn rule_request(action: &str, cidr: Option<&str>) -> CreateAclRuleRequest {
    CreateAclRuleRequest {
        route_id: None,
        action: text(action),
        source_cidr: cidr.map(str::to_string),
        source_port: Some(8080),
        target_host: None,
        target_port: None,
    }
}

fn rule_row(source_port: Option<i64>) -> AclRuleRow {
    AclRuleRow {
        id: text("a1"),
        tenant_id: text("default"),
        route_id: None,
        action: text("allow"),
        source_cidr: Some(text("10.0.0.0/8")),
        source_port,
        target_host: None,
        target_port: None,
        created_at: text("t"),
    }
}

fn is_ten_slash_eight(s: &str) -> bool {
    s == "10.0.0.0/8"
}

#[test]
fn admin_can_create_list_and_delete_rules() {
    let admin = user("admin");
    let n = create_acl_rule(&admin, rule_request(" ALLOW ", Some("10.0.0.0/8")), is_ten_slash_eight)
        .unwrap();
    assert_eq!((n.action.as_str(), n.source_port), ("allow", Some(8080)));
    let a = acl_rule_for(&admin, &text("a1"), &n, false).unwrap();
    assert_eq!((a.action, a.resource_type), ("acl.create", "acl_rule"));
    let r = rule_response(rule_after(Some(rule_row(Some(8080)))).unwrap());
    assert_eq!((r.action.as_str(), r.source_port), ("allow", Some(8080)));
    assert_eq!(rule_response(rule_row(Some(70000))).source_port, None);
    assert_eq!(delete_acl_rule(&admin, &text("a1"), true).unwrap().action, "acl.delete");
    assert_eq!(delete_acl_rule(&admin, &text("a1"), false).unwrap_err().code, "ACL_RULE_NOT_FOUND");
    assert_eq!(rule_after(None).unwrap_err().status, 500);
}

#[test]
fn invalid_rules_are_rejected() {
    let admin = user("admin");
    let e = create_acl_rule(&admin, rule_request("maybe", None), is_ten_slash_eight).unwrap_err();
    assert_eq!((e.status, e.code), (422, "INVALID_ACTION"));
    let bad = rule_request("allow", Some("999.1.2.3/99"));
    let e = create_acl_rule(&admin, bad, is_ten_slash_eight).unwrap_err();
    assert_eq!((e.status, e.code), (422, "INVALID_CIDR"));
    assert_eq!(e.message, "source_cidr \"999.1.2.3/99\" is not a valid CIDR");
    let mut lost = create_acl_rule(&admin, rule_request("allow", None), is_ten_slash_eight).unwrap();
    lost.route_id = Some(text("99999999-9999-4999-8999-999999999999"));
    let e = acl_rule_for(&admin, &text("a1"), &lost, false).unwrap_err();
    assert_eq!((e.status, e.code), (404, "ROUTE_NOT_FOUND"));
}

#[test]
fn viewer_can_read_but_not_write() {
    let e = create_acl_rule(&user("viewer"), rule_request("allow", None), is_ten_slash_eight)
        .unwrap_err();
    assert_eq!((e.status, e.code), (403, "FORBIDDEN"));
    assert_eq!(delete_acl_rule(&user("viewer"), &text("a1"), true).unwrap_err().status, 403);
}

#[test]
fn audit_logs_enforce_audit_read_permission() {
    let q = |limit: i64, offset: i64| AuditQuery { user_id: None, action: None, limit, offset };
    assert_eq!(default_limit(), 100);
    let e = list_audit_logs(&user("operator"), q(100, 0)).unwrap_err();
    assert_eq!((e.status, e.code), (403, "FORBIDDEN"));
    assert!(list_audit_logs(&user("viewer"), q(100, 0)).is_ok());
    let n = list_audit_logs(&user("admin"), q(5000, -3)).unwrap();
    assert_eq!((n.limit, n.offset), (1000, 0));
    assert_eq!(list_audit_logs(&user("admin"), q(0, 7)).unwrap().limit, 1);
    let row = AuditRow {
        id: text("1"),
        user_id: None,
        action: text("login"),
        resource_type: None,
        resource_id: None,
        ip: None,
        user_agent: None,
        metadata: Some(text("{}")),
        created_at: text("t"),
    };
    assert_eq!(audit_entry(row).action, "login");
}

#[test]
fn snapshots_are_for_administrators() {
    assert_eq!(download(&user("admin"), Download::Backup).unwrap(), (true, "tunnel-backup.yaml"));
    assert_eq!(download(&user("admin"), Download::Export).unwrap(), (false, "tunnel-config.yaml"));
    assert_eq!(download(&user("operator"), Download::Export).unwrap_err().status, 403);
    assert!(upload(&user("admin"), Upload::Restore, 1, 1, false).unwrap().is_none());
    let a = upload(&user("admin"), Upload::Import, 0, 0, true).unwrap().unwrap();
    assert_eq!((a.action, a.resource_type, a.resource_id.as_str()), ("import", "snapshot", "import"));
    let e = upload(&user("admin"), Upload::Import, 0, 1, true).unwrap_err();
    assert_eq!((e.status, e.code), (422, "CONTAINS_SECRETS"));
    let e = snapshot_text(b"a: \xff").unwrap_err();
    assert_eq!((e.status, e.code), (422, "INVALID_BODY"));
    assert_eq!(e.message, "request body must be UTF-8 YAML");
    assert_eq!(snapshot_text("a: \u{e9}".as_bytes()).unwrap(), "a: \u{e9}");
    assert_eq!(invalid_snapshot("why").message, "why");
}

#[test]
fn health_always_ok() {
    assert_eq!(health(), (200, "ok"));
}

#[test]
fn ready_returns_ok_when_all_components_ready() {
    let r = ready(&Readiness::ready(), true);
    assert_eq!((r.status, r.state), (200, "ready"));
    assert!(r.database && r.configuration && r.quic && r.http);
}

#[test]
fn ready_returns_503_when_a_component_not_ready() {
    let mut readiness = Readiness::new();
    readiness.mark_db();
    readiness.mark_config();
    let r = ready(&readiness, true);
    assert_eq!((r.status, r.state), (503, "not_ready"));
    assert!(r.database && !r.quic && !r.http);
    readiness.mark_quic();
    readiness.mark_http();
    assert!(readiness.all_ready());
    assert_eq!(ready(&readiness, true).status, 200);
}

#[test]
fn ready_returns_503_when_quic_not_ready() {
    let mut readiness = Readiness::ready();
    readiness.quic = false;
    let r = ready(&readiness, true);
    assert_eq!(r.status, 503);
    assert!(!r.quic && r.database);
    let r = ready(&Readiness::ready(), false);
    assert_eq!(r.status, 503);
    assert!(!r.database);
}

#[test]
fn database_errors_are_mapped() {
    let e = map_db_error(&DbError { unique_violation: true, text: text("x") }, "route");
    assert_eq!((e.status, e.code), (409, "DUPLICATE"));
    assert_eq!(e.message, "route already exists (unique constraint violated)");
    let e = map_db_error(&DbError { unique_violation: false, text: text("gone") }, "route");
    assert_eq!((e.status, e.code, e.message.as_str()), (500, "INTERNAL", "gone"));
}

#[test]
fn events_are_pushed_and_losses_told() {
    assert!(matches!(forward_events(WsEvent::Event(Some(text("{}")))), WsAction::Send(t) if t == "{}"));
    assert!(matches!(forward_events(WsEvent::Event(None)), WsAction::Wait));
    match forward_events(WsEvent::Lagged(12)) {
        WsAction::Send(t) => assert_eq!(t, r#"{"type":"ws.lagged","data":{"skipped":12}}"#),
        other => panic!("got {other:?}"),
    }
    assert!(matches!(forward_events(WsEvent::Frame), WsAction::Wait));
    assert!(matches!(forward_events(WsEvent::Closed), WsAction::Stop));
    assert!(matches!(forward_events(WsEvent::BusClosed), WsAction::Stop));
}
