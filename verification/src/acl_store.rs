//! The access rules of the data plane: global ones and those of single routes.
use crate::ids::{self, Id, RouteId};
use crate::ip::SocketAddr;
use crate::text::str_eq;
use std::collections::HashMap;
use std::sync::Arc;
use vstd::prelude::*;

verus! {

broadcast use vstd::std_specs::hash::group_hash_axioms;

#[derive(Clone, Copy, PartialEq, Eq, Structural, Debug, Hash)]
pub enum AclAction {
    Allow,
    Deny,
}

/// An access rule. What is absent matches everything.
#[derive(Debug)]
pub struct AclRule {
    pub action: AclAction,
    pub source_cidr: Option<String>,
    pub source_port: Option<u16>,
    pub target_host: Option<String>,
    pub target_port: Option<u16>,
}

impl Clone for AclRule {
    fn clone(&self) -> (r: AclRule)
        ensures
            r == *self,
    {
        AclRule {
            action: self.action,
            source_cidr: self.source_cidr.clone(),
            source_port: self.source_port,
            target_host: self.target_host.clone(),
            target_port: self.target_port,
        }
    }
}

/// A stored access rule.
#[derive(Debug)]
pub struct AclRuleRow {
    pub id: String,
    pub tenant_id: String,
    pub route_id: Option<String>,
    pub action: String,
    pub source_cidr: Option<String>,
    pub source_port: Option<i64>,
    pub target_host: Option<String>,
    pub target_port: Option<i64>,
    pub created_at: String,
}

/// The action that a name stands for.
pub open spec fn action_of(s: Seq<char>) -> Option<AclAction> {
    if s == "allow"@ {
        Some(AclAction::Allow)
    } else if s == "deny"@ {
        Some(AclAction::Deny)
    } else {
        None
    }
}

/// A stored port is one, where it is there.
pub open spec fn port_ok(p: Option<i64>) -> bool {
    p matches Some(n) ==> 0 <= n <= 65535
}

/// A stored port as a port.
pub open spec fn port_of(p: Option<i64>) -> Option<u16> {
    match p {
        Some(n) => Some(n as u16),
        None => None,
    }
}

/// The rule that a row holds. A row with an unknown action or a port out of range holds none.
pub open spec fn rule_of(row: AclRuleRow) -> Option<AclRule> {
    if action_of(row.action@) is Some && port_ok(row.source_port) && port_ok(row.target_port) {
        Some(
            AclRule {
                action: action_of(row.action@)->0,
                source_cidr: row.source_cidr,
                source_port: port_of(row.source_port),
                target_host: row.target_host,
                target_port: port_of(row.target_port),
            },
        )
    } else {
        None
    }
}

fn read_port(p: Option<i64>) -> (r: Option<Option<u16>>)
    ensures
        r == (if port_ok(p) {
            Some(port_of(p))
        } else {
            None
        }),
{
    match p {
        None => Some(None),
        Some(n) => if n < 0 || n > 65535 {
            None
        } else {
            Some(Some(n as u16))
        },
    }
}

/// The rule that a row holds, if it holds one.
pub fn row_to_rule(row: &AclRuleRow) -> (r: Option<AclRule>)
    ensures
        r == rule_of(*row),
{
    let action = if str_eq(row.action.as_str(), "allow") {
        AclAction::Allow
    } else if str_eq(row.action.as_str(), "deny") {
        AclAction::Deny
    } else {
        return None;
    };
    match (read_port(row.source_port), read_port(row.target_port)) {
        (Some(source_port), Some(target_port)) => Some(
            AclRule {
                action,
                source_cidr: row.source_cidr.clone(),
                source_port,
                target_host: row.target_host.clone(),
                target_port,
            },
        ),
        _ => None,
    }
}

/// All rules at one moment.
#[derive(Debug)]
pub struct AclSnapshot {
    /// The rules for every route.
    pub global: Vec<AclRule>,
    /// The rules for single routes, by the bits of the route's id.
    pub by_route: HashMap<u128, Vec<AclRule>>,
}

/// The row belongs to the scope: to all routes (`None`) or to the route with the given bits.
pub open spec fn in_scope(row: AclRuleRow, scope: Option<u128>) -> bool {
    match (row.route_id, scope) {
        (None, None) => true,
        (Some(text), Some(bits)) => ids::id_of(text@) == Some(bits as nat),
        _ => false,
    }
}

/// The rules that the first `n` rows hold for a scope, in their order.
pub open spec fn rules_in(rows: Seq<AclRuleRow>, n: int, scope: Option<u128>) -> Seq<AclRule>
    decreases n,
{
    if n <= 0 {
        Seq::empty()
    } else if in_scope(rows[n - 1], scope) && rule_of(rows[n - 1]) is Some {
        rules_in(rows, n - 1, scope).push(rule_of(rows[n - 1])->0)
    } else {
        rules_in(rows, n - 1, scope)
    }
}

impl AclSnapshot {
    /// The rules for the route with the given bits, without the global ones.
    pub open spec fn own_rules(self, bits: u128) -> Seq<AclRule> {
        if self.by_route@.dom().contains(bits) {
            self.by_route@[bits]@
        } else {
            Seq::empty()
        }
    }

    /// The rules that decide about connections to a route: the global ones, then its own.
    pub open spec fn rules_for(self, bits: u128) -> Seq<AclRule> {
        self.global@ + self.own_rules(bits)
    }

    /// The snapshot holds the rules of the first `n` rows.
    pub open spec fn holds(self, rows: Seq<AclRuleRow>, n: int) -> bool {
        &&& self.global@ == rules_in(rows, n, None)
        &&& forall|bits: u128| #[trigger] self.own_rules(bits) == rules_in(rows, n, Some(bits))
    }

    /// No rules.
    pub fn new() -> (r: AclSnapshot)
        ensures
            r.global@ == Seq::<AclRule>::empty(),
            r.by_route@ == Map::<u128, Vec<AclRule>>::empty(),
    {
        AclSnapshot { global: Vec::new(), by_route: HashMap::new() }
    }

    /// The rules of all rows. A row for a route whose id cannot be read is passed over.
    pub fn from_rows(rows: &Vec<AclRuleRow>) -> (snap: AclSnapshot)
        ensures
            snap.holds(rows@, rows@.len() as int),
    {
        let mut snap = AclSnapshot::new();
        let mut i: usize = 0;
        while i < rows.len()
            invariant
                i <= rows@.len(),
                snap.holds(rows@, i as int),
            decreases rows@.len() - i,
        {
            let ghost before = snap;
            let row = &rows[i];
            if let Some(rule) = row_to_rule(row) {
                match &row.route_id {
                    None => {
                        snap.global.push(rule);
                        assert forall|bits: u128| #[trigger] snap.own_rules(bits) == rules_in(
                            rows@,
                            i + 1,
                            Some(bits),
                        ) by {
                            assert(before.own_rules(bits) == rules_in(rows@, i as int, Some(bits)));
                        }
                    },
                    Some(text) => {
                        if let Some(id) = Id::parse_str(text.as_str()) {
                            let mut own = match snap.by_route.remove(&id.value) {
                                Some(v) => v,
                                None => Vec::new(),
                            };
                            assert(own@ =~= before.own_rules(id.value));
                            own.push(rule);
                            snap.by_route.insert(id.value, own);
                            assert forall|bits: u128| #[trigger] snap.own_rules(bits) == rules_in(
                                rows@,
                                i + 1,
                                Some(bits),
                            ) by {
                                assert(before.own_rules(bits) == rules_in(
                                    rows@,
                                    i as int,
                                    Some(bits),
                                ));
                            }
                        } else {
                            assert forall|bits: u128| #[trigger] snap.own_rules(bits) == rules_in(
                                rows@,
                                i + 1,
                                Some(bits),
                            ) by {
                                assert(before.own_rules(bits) == rules_in(
                                    rows@,
                                    i as int,
                                    Some(bits),
                                ));
                            }
                        }
                    },
                }
            } else {
                assert forall|bits: u128| #[trigger] snap.own_rules(bits) == rules_in(
                    rows@,
                    i + 1,
                    Some(bits),
                ) by {
                    assert(before.own_rules(bits) == rules_in(rows@, i as int, Some(bits)));
                }
            }
            i += 1;
        }
        snap
    }
}

/// One of the rules takes the given action and covers the connection, where `covered` tells of
/// each rule whether it does.
pub open spec fn says_so(rules: Seq<AclRule>, covered: Seq<bool>, action: AclAction) -> bool {
    exists|i: int|
        0 <= i < rules.len() && covered[i] && (#[trigger] rules[i]).action == action
}

/// The rules let a connection in: one of those that cover it allows it, and none denies it.
pub open spec fn let_in(rules: Seq<AclRule>, covered: Seq<bool>) -> bool {
    says_so(rules, covered, AclAction::Allow) && !says_so(rules, covered, AclAction::Deny)
}

/// `covered` tells of each rule whether it covers a connection from `source` to the target, as
/// `covers` judges it.
pub open spec fn judged<F: Fn(&AclRule, &SocketAddr, &str, u16) -> bool>(
    rules: Seq<AclRule>,
    covers: F,
    source: SocketAddr,
    host: &str,
    target_port: u16,
    covered: Seq<bool>,
) -> bool {
    &&& covered.len() == rules.len()
    &&& forall|i: int|
        0 <= i < rules.len() ==> call_ensures(
            covers,
            (&#[trigger] rules[i], &source, host, target_port),
            covered[i],
        )
}

/// Whether rules let a connection in: a rule that denies it goes before all that allow it, and
/// without one that allows it, it is kept out.
pub fn evaluate_acl<F: Fn(&AclRule, &SocketAddr, &str, u16) -> bool>(
    rules: &Vec<AclRule>,
    source: &SocketAddr,
    target_host: &str,
    target_port: u16,
    covers: F,
) -> (r: bool)
    requires
        forall|rule: &AclRule, s: &SocketAddr, host: &str, port: u16|
            call_requires(covers, (rule, s, host, port)),
    ensures
        exists|covered: Seq<bool>| #[trigger]
            judged(rules@, covers, *source, target_host, target_port, covered) && r == let_in(
                rules@,
                covered,
            ),
{
    let mut allowed = false;
    let mut denied = false;
    let ghost mut covered: Seq<bool> = Seq::empty();
    let mut i: usize = 0;
    while i < rules.len()
        invariant
            i <= rules@.len(),
            covered.len() == i,
            forall|rule: &AclRule, s: &SocketAddr, host: &str, port: u16|
                call_requires(covers, (rule, s, host, port)),
            forall|k: int|
                0 <= k < i ==> call_ensures(
                    covers,
                    (&#[trigger] rules@[k], source, target_host, target_port),
                    covered[k],
                ),
            allowed == exists|k: int|
                0 <= k < i && covered[k] && (#[trigger] rules@[k]).action == AclAction::Allow,
            denied == exists|k: int|
                0 <= k < i && covered[k] && (#[trigger] rules@[k]).action == AclAction::Deny,
        decreases rules@.len() - i,
    {
        let rule = &rules[i];
        let hit = covers(rule, source, target_host, target_port);
        let ghost before = covered;
        proof {
            covered = before.push(hit);
            assert(rules@[i as int] == *rule && covered[i as int] == hit);
        }
        if hit {
            match rule.action {
                AclAction::Allow => {
                    allowed = true;
                },
                AclAction::Deny => {
                    denied = true;
                },
            }
        }
        assert(forall|k: int| 0 <= k < i ==> covered[k] == before[k]);
        i += 1;
    }
    assert(judged(rules@, covers, *source, target_host, target_port, covered));
    allowed && !denied
}

/// A rule that covers a connection and denies it keeps it out, whatever the others say.
pub proof fn deny_goes_first(rules: Seq<AclRule>, covered: Seq<bool>, i: int)
    requires
        0 <= i < rules.len(),
        covered[i],
        rules[i].action == AclAction::Deny,
    ensures
        !let_in(rules, covered),
{
}

/// Where there are rules and none of them covers a connection, it is kept out.
pub proof fn kept_out_by_default(rules: Seq<AclRule>, covered: Seq<bool>)
    requires
        forall|i: int| 0 <= i < rules.len() ==> !#[trigger] covered[i],
    ensures
        !let_in(rules, covered),
{
}

/// `answer` is what the rules of `snap` say of a connection from `source` to the target of a route:
/// without a rule it is let in, else the rules for the route decide, where `covers` judges which
/// of them cover it.
pub open spec fn acl_says<F: Fn(&AclRule, &SocketAddr, &str, u16) -> bool>(
    snap: AclSnapshot,
    covers: F,
    route_id: RouteId,
    source: SocketAddr,
    target_host: Seq<char>,
    target_port: u16,
    answer: bool,
) -> bool {
    let rules = snap.rules_for(route_id.value);
    if rules.len() == 0 {
        answer
    } else {
        exists|covered: Seq<bool>, host: &str|
            host@ == target_host && #[trigger] judged(
                rules,
                covers,
                source,
                host,
                target_port,
                covered,
            ) && answer == let_in(rules, covered)
    }
}

/// The current rules, in the lock-free cell of the `arc_swap` crate.
#[verifier::external_body]
pub struct AclCell {
    inner: arc_swap::ArcSwap<AclSnapshot>,
}

/// The rules that the cell holds.
pub uninterp spec fn acl_rules(c: AclCell) -> AclSnapshot;

/// `ArcSwap::new`: a cell with the given value.
#[verifier::external_body]
fn acl_cell(v: Arc<AclSnapshot>) -> (c: AclCell)
    ensures
        acl_rules(c) == *v,
{
    AclCell { inner: arc_swap::ArcSwap::new(v) }
}

/// `ArcSwap::load_full`: the value that the cell holds.
#[verifier::external_body]
fn acl_cell_load(c: &AclCell) -> (v: Arc<AclSnapshot>)
    ensures
        *v == acl_rules(*c),
{
    c.inner.load_full()
}

/// `ArcSwap::store`: the cell holds the given value instead of the old one.
#[verifier::external_body]
fn acl_cell_store(c: &mut AclCell, v: Arc<AclSnapshot>)
    ensures
        acl_rules(*final(c)) == *v,
{
    c.inner.store(v);
}

/// Decides which connections the data plane lets in.
pub struct AclStore {
    snapshot: AclCell,
}

fn push_all(to: &mut Vec<AclRule>, rules: &Vec<AclRule>)
    ensures
        final(to)@ == old(to)@ + rules@,
{
    let mut i: usize = 0;
    while i < rules.len()
        invariant
            i <= rules@.len(),
            to@ == old(to)@ + rules@.subrange(0, i as int),
        decreases rules@.len() - i,
    {
        to.push(rules[i].clone());
        i += 1;
        assert(to@ =~= old(to)@ + rules@.subrange(0, i as int));
    }
    assert(rules@.subrange(0, i as int) =~= rules@);
}

impl View for AclStore {
    type V = AclSnapshot;

    closed spec fn view(&self) -> AclSnapshot {
        acl_rules(self.snapshot)
    }
}

impl AclStore {
    /// A store without rules.
    pub fn new() -> (r: AclStore)
        ensures
            r@.global@ == Seq::<AclRule>::empty(),
            r@.by_route@ == Map::<u128, Vec<AclRule>>::empty(),
    {
        AclStore { snapshot: acl_cell(Arc::new(AclSnapshot::new())) }
    }

    /// A store with the given rules.
    pub fn with_snapshot(snapshot: AclSnapshot) -> (r: AclStore)
        ensures
            r@ == snapshot,
    {
        AclStore { snapshot: acl_cell(Arc::new(snapshot)) }
    }

    /// Takes over the stored rules. Where they could not be loaded (`None`), the old ones stay.
    pub fn reload(&mut self, rows: Option<Vec<AclRuleRow>>)
        ensures
            match rows {
                Some(rows) => final(self)@.holds(rows@, rows@.len() as int),
                None => final(self)@ == old(self)@,
            },
    {
        match rows {
            Some(rows) => {
                let snap = AclSnapshot::from_rows(&rows);
                acl_cell_store(&mut self.snapshot, Arc::new(snap));
            },
            None => {},
        }
    }

    /// Whether a connection from `source` to the target of a route is let in. Without any rule
    /// for the route it is; else the global rules and those of the route decide. Which of them
    /// cover the connection, `covers` judges.
    pub fn allows<F: Fn(&AclRule, &SocketAddr, &str, u16) -> bool>(
        &self,
        route_id: RouteId,
        source: &SocketAddr,
        target_host: &str,
        target_port: u16,
        covers: F,
    ) -> (r: bool)
        requires
            forall|rule: &AclRule, s: &SocketAddr, host: &str, port: u16|
                call_requires(covers, (rule, s, host, port)),
        ensures
            acl_says(
                self@,
                covers,
                route_id,
                *source,
                target_host@,
                target_port,
                r,
            ),
    {
        let snap = acl_cell_load(&self.snapshot);
        let mut merged: Vec<AclRule> = Vec::new();
        push_all(&mut merged, &snap.global);
        match snap.by_route.get(&route_id.value) {
            Some(own) => {
                push_all(&mut merged, own);
            },
            None => {},
        }
        assert(merged@ =~= self@.rules_for(route_id.value));
        if merged.len() == 0 {
            return true;
        }
        evaluate_acl(&merged, source, target_host, target_port, covers)
    }
}

/// A stored rule without a route decides about every route, and one with a route about that
/// route alone.
pub proof fn rules_reach_their_scope(
    snap: AclSnapshot,
    rows: Seq<AclRuleRow>,
    i: int,
    bits: u128,
)
    requires
        snap.holds(rows, rows.len() as int),
        0 <= i < rows.len(),
        rule_of(rows[i]) is Some,
    ensures
        rows[i].route_id is None ==> snap.rules_for(bits).contains(rule_of(rows[i])->0),
        rows[i].route_id matches Some(text) ==> (ids::id_of(text@) == Some(bits as nat)
            ==> snap.rules_for(bits).contains(rule_of(rows[i])->0)),
{
    let rule = rule_of(rows[i])->0;
    if in_scope(rows[i], None) {
        in_scope_is_listed(rows, rows.len() as int, i, None);
        let k = choose|k: int| 0 <= k < snap.global@.len() && snap.global@[k] == rule;
        assert(snap.rules_for(bits)[k] == rule);
    }
    if in_scope(rows[i], Some(bits)) {
        in_scope_is_listed(rows, rows.len() as int, i, Some(bits));
        let own = snap.own_rules(bits);
        let k = choose|k: int| 0 <= k < own.len() && own[k] == rule;
        assert(snap.rules_for(bits)[snap.global@.len() + k] == rule);
    }
}

proof fn in_scope_is_listed(rows: Seq<AclRuleRow>, n: int, i: int, scope: Option<u128>)
    requires
        0 <= i < n <= rows.len(),
        in_scope(rows[i], scope),
        rule_of(rows[i]) is Some,
    ensures
        rules_in(rows, n, scope).contains(rule_of(rows[i])->0),
    decreases n,
{
    let all = rules_in(rows, n, scope);
    if i == n - 1 {
        assert(all.last() == rule_of(rows[i])->0);
    } else {
        in_scope_is_listed(rows, n - 1, i, scope);
        let before = rules_in(rows, n - 1, scope);
        let k = choose|k: int| 0 <= k < before.len() && before[k] == rule_of(rows[i])->0;
        assert(all[k] == before[k]);
    }
}

/// Every rule that decides about a route comes from a stored rule without a route or for that
/// route.
pub proof fn rules_come_from_their_scope(
    snap: AclSnapshot,
    rows: Seq<AclRuleRow>,
    bits: u128,
    k: int,
)
    requires
        snap.holds(rows, rows.len() as int),
        0 <= k < snap.rules_for(bits).len(),
    ensures
        exists|i: int|
            0 <= i < rows.len() && rule_of(#[trigger] rows[i]) == Some(snap.rules_for(bits)[k]) && (
            in_scope(rows[i], None) || in_scope(rows[i], Some(bits))),
{
    let n = snap.global@.len();
    if k < n {
        listed_is_in_scope(rows, rows.len() as int, k, None);
    } else {
        assert(snap.own_rules(bits) == rules_in(rows, rows.len() as int, Some(bits)));
        listed_is_in_scope(rows, rows.len() as int, k - n, Some(bits));
    }
}

proof fn listed_is_in_scope(rows: Seq<AclRuleRow>, n: int, k: int, scope: Option<u128>)
    requires
        0 <= n <= rows.len(),
        0 <= k < rules_in(rows, n, scope).len(),
    ensures
        exists|i: int|
            0 <= i < n && rule_of(#[trigger] rows[i]) == Some(rules_in(rows, n, scope)[k])
                && in_scope(rows[i], scope),
    decreases n,
{
    if n > 0 {
        let before = rules_in(rows, n - 1, scope);
        if k < before.len() {
            listed_is_in_scope(rows, n - 1, k, scope);
        } else {
            assert(rule_of(rows[n - 1]) == Some(rules_in(rows, n, scope)[k]));
        }
    }
}

/// A rule that was loaded from a row has each condition of the row, and no other: what the row
/// leaves open the rule leaves open. Its ports are the row's numbers, and it allows or denies as
/// the row says.
pub proof fn rule_has_the_conditions_of_its_row(row: AclRuleRow, rule: AclRule)
    requires
        rule_of(row) == Some(rule),
    ensures
        rule.source_cidr == row.source_cidr,
        rule.target_host == row.target_host,
        rule.source_port is Some == row.source_port is Some,
        rule.source_port matches Some(p) ==> p as int == row.source_port->0 as int,
        rule.target_port is Some == row.target_port is Some,
        rule.target_port matches Some(p) ==> p as int == row.target_port->0 as int,
        rule.action == AclAction::Allow <==> row.action@ == "allow"@,
        rule.action == AclAction::Deny <==> row.action@ == "deny"@,
{
    reveal_strlit("allow");
    reveal_strlit("deny");
    assert("allow"@.len() == 5 && "deny"@.len() == 4);
}

/// A row holds a rule where it allows or denies and its ports, if it names any, are ports; and
/// nowhere else.
pub proof fn rows_that_hold_a_rule(row: AclRuleRow)
    ensures
        rule_of(row) is Some <==> {
            &&& row.action@ == "allow"@ || row.action@ == "deny"@
            &&& row.source_port matches Some(p) ==> 0 <= p < 0x1_0000
            &&& row.target_port matches Some(p) ==> 0 <= p < 0x1_0000
        },
{
}

/// A row without a route belongs to every route, and one with a route to the one with that id.
pub proof fn row_belongs_to_its_route(row: AclRuleRow, bits: u128)
    ensures
        in_scope(row, None) <==> row.route_id is None,
        in_scope(row, Some(bits)) <==> row.route_id is Some && ids::id_of(row.route_id->0@) == Some(
            bits as nat,
        ),
{
}

/// Of the rules for a route, those of earlier rows stand before those of later ones of the same
/// scope, and no row counts twice: adding a row adds its rule behind the others, or nothing.
pub proof fn a_row_adds_its_rule_last(
    rows: Seq<AclRuleRow>,
    row: AclRuleRow,
    scope: Option<u128>,
)
    ensures
        ({
            let n = rows.len() as int;
            let before = rules_in(rows, n, scope);
            let after = rules_in(rows.push(row), n + 1, scope);
            &&& rule_of(row) is Some && in_scope(row, scope) ==> after == before.push(
                rule_of(row)->0,
            )
            &&& !(rule_of(row) is Some && in_scope(row, scope)) ==> after == before
        }),
{
    rules_of_a_prefix(rows, row, rows.len() as int, scope);
    assert(rows.push(row)[rows.len() as int] == row);
}

proof fn rules_of_a_prefix(rows: Seq<AclRuleRow>, row: AclRuleRow, n: int, scope: Option<u128>)
    requires
        0 <= n <= rows.len(),
    ensures
        rules_in(rows.push(row), n, scope) == rules_in(rows, n, scope),
    decreases n,
{
    if n > 0 {
        rules_of_a_prefix(rows, row, n - 1, scope);
        assert(rows.push(row)[n - 1] == rows[n - 1]);
    }
}

/// A connection is let in exactly where a rule that covers it allows it and no rule that covers it
/// denies it.
pub proof fn who_is_let_in(rules: Seq<AclRule>, covered: Seq<bool>)
    ensures
        let_in(rules, covered) <==> (exists|i: int|
            0 <= i < rules.len() && covered[i] && (#[trigger] rules[i]).action == AclAction::Allow)
            && (forall|i: int|
            0 <= i < rules.len() && covered[i] ==> (#[trigger] rules[i]).action
                == AclAction::Allow),
{
    if let_in(rules, covered) {
        assert forall|i: int| 0 <= i < rules.len() && covered[i] implies (#[trigger] rules[i]).action
            == AclAction::Allow by {
            if rules[i].action == AclAction::Deny {
                assert(says_so(rules, covered, AclAction::Deny));
            }
        }
    }
}

/// Without a rule for a route, neither of its own nor a global one, every connection to it is let
/// in.
pub proof fn route_without_rules_is_open<F: Fn(&AclRule, &SocketAddr, &str, u16) -> bool>(
    snap: AclSnapshot,
    covers: F,
    route_id: RouteId,
    source: SocketAddr,
    target_host: Seq<char>,
    target_port: u16,
    answer: bool,
)
    requires
        acl_says(snap, covers, route_id, source, target_host, target_port, answer),
        snap.global@.len() == 0,
        snap.by_route@.dom().contains(route_id.value) ==> snap.by_route@[route_id.value]@.len()
            == 0,
    ensures
        answer,
{
}

/// A connection that is let in although there is a global rule is allowed by one of the rules,
/// global or of the route, that covers it.
pub proof fn who_is_let_in_is_allowed<F: Fn(&AclRule, &SocketAddr, &str, u16) -> bool>(
    snap: AclSnapshot,
    covers: F,
    route_id: RouteId,
    source: SocketAddr,
    target_host: Seq<char>,
    target_port: u16,
) -> (r: (AclRule, &'static str))
    requires
        acl_says(snap, covers, route_id, source, target_host, target_port, true),
        snap.global@.len() > 0 || (snap.by_route@.dom().contains(route_id.value)
            && snap.by_route@[route_id.value]@.len() > 0),
    ensures
        snap.global@.contains(r.0) || (snap.by_route@.dom().contains(route_id.value)
            && snap.by_route@[route_id.value]@.contains(r.0)),
        r.0.action == AclAction::Allow,
        r.1@ == target_host,
        call_ensures(covers, (&r.0, &source, r.1, target_port), true),
{
    let rules = snap.rules_for(route_id.value);
    let own = snap.own_rules(route_id.value);
    let (covered, host) = choose|covered: Seq<bool>, host: &str|
        host@ == target_host && #[trigger] judged(
            rules,
            covers,
            source,
            host,
            target_port,
            covered,
        ) && true == let_in(rules, covered);
    let i = choose|i: int|
        0 <= i < rules.len() && covered[i] && (#[trigger] rules[i]).action == AclAction::Allow;
    assert(call_ensures(covers, (&rules[i], &source, host, target_port), covered[i]));
    if i < snap.global@.len() {
        assert(snap.global@[i] == rules[i]);
    } else {
        assert(own[i - snap.global@.len()] == rules[i]);
    }
    (rules[i], host)
}

/// A rule, global or of the route, that denies a connection and covers it keeps it out, whatever
/// the other rules say.
pub proof fn who_is_denied_is_kept_out<F: Fn(&AclRule, &SocketAddr, &str, u16) -> bool>(
    snap: AclSnapshot,
    covers: F,
    route_id: RouteId,
    source: SocketAddr,
    target_host: Seq<char>,
    target_port: u16,
    answer: bool,
    rule: AclRule,
)
    requires
        acl_says(snap, covers, route_id, source, target_host, target_port, answer),
        snap.global@.contains(rule) || (snap.by_route@.dom().contains(route_id.value)
            && snap.by_route@[route_id.value]@.contains(rule)),
        rule.action == AclAction::Deny,
        forall|host: &str|
            host@ == target_host ==> !#[trigger] call_ensures(
                covers,
                (&rule, &source, host, target_port),
                false,
            ),
    ensures
        !answer,
{
    let rules = snap.rules_for(route_id.value);
    let own = snap.own_rules(route_id.value);
    let i = if snap.global@.contains(rule) {
        choose|i: int| 0 <= i < snap.global@.len() && snap.global@[i] == rule
    } else {
        snap.global@.len() + choose|i: int| 0 <= i < own.len() && own[i] == rule
    };
    if snap.global@.contains(rule) {
        assert(snap.global@[i] == rule);
    } else {
        assert(own.contains(rule));
        assert(own[i - snap.global@.len()] == rule);
    }
    assert(rules[i] == rule);
    let (covered, host) = choose|covered: Seq<bool>, host: &str|
        host@ == target_host && #[trigger] judged(
            rules,
            covers,
            source,
            host,
            target_port,
            covered,
        ) && answer == let_in(rules, covered);
    assert(call_ensures(covers, (&rules[i], &source, host, target_port), covered[i]));
    assert(covered[i]);
    assert(says_so(rules, covered, AclAction::Deny));
}

} // verus!
