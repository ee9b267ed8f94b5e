//! Access rules.
use tunnel_server::acl_store::{
    evaluate_acl, row_to_rule, AclAction, AclRule, AclRuleRow, AclSnapshot, AclStore,
};
use tunnel_server::ids::Id;
use tunnel_server::ip::{parse_ip, IpAddr, SocketAddr};

fn src(ip: &str, port: u16) -> SocketAddr {
    SocketAddr::new(parse_ip(ip).unwrap(), port)
}

fn rule(action: AclAction, cidr: Option<&str>) -> AclRule {
    AclRule {
        action,
        source_cidr: cidr.map(str::to_string),
        source_port: None,
        target_host: None,
        target_port: None,
    }
}

/// The source address lies in an IPv4 network such as `10.0.0.0/8`.
fn in_network(cidr: &str, source: &SocketAddr) -> bool {
    let (net, bits) = cidr.split_once('/').unwrap();
    let bits: u32 = bits.parse().unwrap();
    match (parse_ip(net), source.ip()) {
        (Some(IpAddr::V4(n)), IpAddr::V4(s)) => bits == 0 || n >> (32 - bits) == s >> (32 - bits),
        _ => false,
    }
}

/// A rule covers a connection where each part that it names fits.
fn covers(r: &AclRule, source: &SocketAddr, host: &str, port: u16) -> bool {
    r.source_cidr.as_deref().map_or(true, |c| in_network(c, source))
        && r.source_port.map_or(true, |p| p == source.port())
        && r.target_host.as_deref().map_or(true, |h| h == host)
        && r.target_port.map_or(true, |p| p == port)
}

fn row(route_id: Option<&str>, action: &str, cidr: Option<&str>) -> AclRuleRow {
    AclRuleRow {
        id: "1".to_string(),
        tenant_id: "default".to_string(),
        route_id: route_id.map(str::to_string),
        action: action.to_string(),
        source_cidr: cidr.map(str::to_string),
        source_port: None,
        target_host: None,
        target_port: None,
        created_at: "t".to_string(),
    }
}

const ROUTE_ONE: &str = "00000000-0000-0000-0000-000000000001";

#[test]
fn empty_store_allows_all() {
    let store = AclStore::new();
    let route = Id::from_u128(1);
    assert!(store.allows(route, &src("10.0.0.1", 1234), "h", 80, covers));
    assert!(store.allows(route, &src("8.8.8.8", 1), "h", 80, covers));
}

#[test]
fn global_deny_applies_to_any_route() {
    let mut snap = AclSnapshot::new();
    snap.global.push(rule(AclAction::Deny, Some("0.0.0.0/0")));
    let store = AclStore::with_snapshot(snap);
    assert!(!store.allows(Id::from_u128(1), &src("10.0.0.1", 1), "h", 80, covers));
    assert!(!store.allows(Id::from_u128(2), &src("192.168.1.1", 1), "h", 80, covers));
}

#[test]
fn route_scoped_rule_only_affects_that_route() {
    let mut snap = AclSnapshot::new();
    snap.by_route.entry(1).or_default().push(rule(AclAction::Deny, Some("0.0.0.0/0")));
    let store = AclStore::with_snapshot(snap);
    assert!(!store.allows(Id::from_u128(1), &src("10.0.0.1", 1), "h", 80, covers));
    assert!(store.allows(Id::from_u128(2), &src("10.0.0.1", 1), "h", 80, covers));
}

#[test]
fn row_to_rule_converts_and_rejects_invalid() {
    let ok = AclRuleRow {
        id: "1".into(),
        tenant_id: "default".into(),
        route_id: None,
        action: "allow".into(),
        source_cidr: Some("10.0.0.0/8".into()),
        source_port: Some(8080),
        target_host: None,
        target_port: None,
        created_at: "t".into(),
    };
    let r = row_to_rule(&ok).unwrap();
    assert_eq!(r.action, AclAction::Allow);
    assert_eq!(r.source_port, Some(8080));

    let bad = AclRuleRow { action: "bogus".into(), ..ok };
    assert!(row_to_rule(&bad).is_none());
}

#[test]
fn rule_with_a_port_out_of_range_is_left_out() {
    let high = AclRuleRow { source_port: Some(65536), ..row(None, "deny", None) };
    assert!(row_to_rule(&high).is_none());
    let low = AclRuleRow { target_port: Some(-1), ..row(None, "deny", None) };
    assert!(row_to_rule(&low).is_none());
    let last = AclRuleRow { target_port: Some(65535), ..row(None, "deny", None) };
    assert_eq!(row_to_rule(&last).unwrap().target_port, Some(65535));
}

#[test]
fn rows_are_sorted_by_scope_and_keep_their_order() {
    let rows = vec![
        row(None, "allow", Some("10.0.0.0/8")),
        row(Some(ROUTE_ONE), "deny", None),
        row(None, "deny", None),
        row(Some("no-id"), "deny", None),
        row(None, "maybe", None),
    ];
    let snap = AclSnapshot::from_rows(&rows);
    assert_eq!(snap.global.len(), 2);
    assert_eq!(snap.global[0].action, AclAction::Allow);
    assert_eq!(snap.global[1].action, AclAction::Deny);
    assert_eq!(snap.by_route.len(), 1);
    assert_eq!(snap.by_route[&1].len(), 1);
}

#[test]
fn deny_goes_before_allow_whatever_the_scope() {
    let mut store = AclStore::new();
    store.reload(Some(vec![
        row(None, "allow", Some("10.0.0.0/8")),
        row(Some(ROUTE_ONE), "deny", Some("10.1.0.0/16")),
    ]));
    let route = Id::from_u128(1);
    assert!(!store.allows(route, &src("10.1.2.3", 1), "h", 80, covers));
    assert!(store.allows(route, &src("10.2.2.3", 1), "h", 80, covers));
    assert!(store.allows(Id::from_u128(2), &src("10.1.2.3", 1), "h", 80, covers));
    assert!(!store.allows(route, &src("11.1.2.3", 1), "h", 80, covers));
}

#[test]
fn rules_keep_out_what_none_allows() {
    let rules = vec![rule(AclAction::Allow, Some("10.0.0.0/8"))];
    assert!(evaluate_acl(&rules, &src("10.9.9.9", 1), "h", 80, covers));
    assert!(!evaluate_acl(&rules, &src("9.9.9.9", 1), "h", 80, covers));
    let both = vec![rule(AclAction::Deny, None), rule(AclAction::Allow, None)];
    assert!(!evaluate_acl(&both, &src("10.9.9.9", 1), "h", 80, covers));
    let turned = vec![rule(AclAction::Allow, None), rule(AclAction::Deny, None)];
    assert!(!evaluate_acl(&turned, &src("10.9.9.9", 1), "h", 80, covers));
    assert!(!evaluate_acl(&vec![], &src("10.9.9.9", 1), "h", 80, covers));
}

#[test]
fn failed_reload_keeps_the_rules() {
    let mut store = AclStore::new();
    store.reload(Some(vec![row(None, "deny", None)]));
    assert!(!store.allows(Id::from_u128(7), &src("10.0.0.1", 1), "h", 80, covers));
    store.reload(None);
    assert!(!store.allows(Id::from_u128(7), &src("10.0.0.1", 1), "h", 80, covers));
    store.reload(Some(vec![]));
    assert!(store.allows(Id::from_u128(7), &src("10.0.0.1", 1), "h", 80, covers));
}
