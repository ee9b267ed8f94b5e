//! Access rules over the API.
use crate::acl_store::AclRuleRow;
use crate::api::{self, ApiError, AuditMeta, AuditRecord};
use crate::api::rbac::{self, Permission, require_permission};
use crate::session::User;
use crate::text::{self, concat, debug_text, push_str, str_eq, to_ascii_lowercase, trim};
use vstd::prelude::*;

verus! {

/// An access rule as it is answered.
#[derive(Debug)]
pub struct AclRule {
    pub id: String,
    pub route_id: Option<String>,
    pub action: String,
    pub source_cidr: Option<String>,
    pub source_port: Option<u16>,
    pub target_host: Option<String>,
    pub target_port: Option<u16>,
}

/// A stored port as it is answered: one that is out of range is left out.
pub open spec fn port_or_none(p: Option<i64>) -> Option<u16> {
    match p {
        Some(n) => if 0 <= n <= 65535 {
            Some(n as u16)
        } else {
            None
        },
        None => None,
    }
}

fn answer_port(p: Option<i64>) -> (r: Option<u16>)
    ensures
        r == port_or_none(p),
{
    match p {
        Some(n) => if 0 <= n && n <= 65535 {
            Some(n as u16)
        } else {
            None
        },
        None => None,
    }
}

/// The rule that a row is answered as.
pub fn rule_response(row: AclRuleRow) -> (r: AclRule)
    ensures
        r == (AclRule {
            id: row.id,
            route_id: row.route_id,
            action: row.action,
            source_cidr: row.source_cidr,
            source_port: port_or_none(row.source_port),
            target_host: row.target_host,
            target_port: port_or_none(row.target_port),
        }),
{
    AclRule {
        id: row.id,
        route_id: row.route_id,
        action: row.action,
        source_cidr: row.source_cidr,
        source_port: answer_port(row.source_port),
        target_host: row.target_host,
        target_port: answer_port(row.target_port),
    }
}

/// A request for a new access rule.
#[derive(Debug)]
pub struct CreateAclRuleRequest {
    pub route_id: Option<String>,
    pub action: String,
    pub source_cidr: Option<String>,
    pub source_port: Option<u16>,
    pub target_host: Option<String>,
    pub target_port: Option<u16>,
}

/// An access rule to be stored. Where it names a route, the route has to be looked for first.
#[derive(Debug)]
pub struct NewAclRule {
    pub route_id: Option<String>,
    pub action: String,
    pub source_cidr: Option<String>,
    pub source_port: Option<i64>,
    pub target_host: Option<String>,
    pub target_port: Option<i64>,
}

/// The action that a request names, in lower case and without white space around it.
pub open spec fn action_text(r: CreateAclRuleRequest) -> Seq<char> {
    text::ascii_lower(text::trimmed(r.action@))
}

/// What a request for a rule is refused with before the store is asked, where `cidr_ok` is
/// whether its source is a CIDR range.
pub open spec fn acl_fault(role: Seq<char>, r: CreateAclRuleRequest, cidr_ok: bool) -> Option<
    api::ErrorView,
> {
    if !rbac::grants(role, Permission::RoutesWrite) {
        Some(rbac::lacking(Permission::RoutesWrite))
    } else if action_text(r) != "allow"@ && action_text(r) != "deny"@ {
        Some(api::error(422, "INVALID_ACTION"@, "action must be 'allow' or 'deny'"@))
    } else if r.source_cidr is Some && !cidr_ok {
        Some(
            api::error(
                422,
                "INVALID_CIDR"@,
                "source_cidr "@ + text::quoted(r.source_cidr->0@) + " is not a valid CIDR"@,
            ),
        )
    } else {
        None
    }
}

/// A port as it is stored.
pub open spec fn wide(p: Option<u16>) -> Option<i64> {
    match p {
        Some(p) => Some(p as i64),
        None => None,
    }
}

fn widen(p: Option<u16>) -> (r: Option<i64>)
    ensures
        r == wide(p),
{
    match p {
        Some(p) => Some(p as i64),
        None => None,
    }
}

/// A request for a new rule, up to the question whether its route exists. `is_cidr` tells
/// whether a text is a CIDR range.
pub fn create_acl_rule<F: Fn(&str) -> bool>(
    user: &User,
    body: CreateAclRuleRequest,
    is_cidr: F,
) -> (r: Result<NewAclRule, ApiError>)
    requires
        forall|s: &str| call_requires(is_cidr, (s,)),
    ensures
        exists|ok: bool|
            (body.source_cidr matches Some(c) ==> (rbac::grants(user.role@, Permission::RoutesWrite)
                && (action_text(body) == "allow"@ || action_text(body) == "deny"@) ==> exists|
                s: &str,
            |
                s@ == c@ && #[trigger] call_ensures(is_cidr, (s,), ok))) && match #[trigger] acl_fault(
                user.role@,
                body,
                ok,
            ) {
                Some(f) => r matches Err(e) && e@ == f,
                None => {
                    &&& r matches Ok(n)
                    &&& n.route_id == body.route_id
                    &&& n.action@ == action_text(body)
                    &&& n.source_cidr == body.source_cidr
                    &&& n.source_port == wide(body.source_port)
                    &&& n.target_host == body.target_host
                    &&& n.target_port == wide(body.target_port)
                },
            },
{
    if let Err(e) = require_permission(user, Permission::RoutesWrite) {
        assert(acl_fault(user.role@, body, true) == Some(e@));
        return Err(e);
    }
    let action = to_ascii_lowercase(trim(body.action.as_str()).as_str());
    if !str_eq(action.as_str(), "allow") && !str_eq(action.as_str(), "deny") {
        let e = ApiError::unprocessable("INVALID_ACTION", "action must be 'allow' or 'deny'");
        assert(acl_fault(user.role@, body, true) == Some(e@));
        return Err(e);
    }
    if let Some(cidr) = &body.source_cidr {
        if !is_cidr(cidr.as_str()) {
            let mut m = concat("source_cidr ", debug_text(cidr.as_str()).as_str());
            push_str(&mut m, " is not a valid CIDR");
            let e = ApiError::unprocessable("INVALID_CIDR", m.as_str());
            assert(acl_fault(user.role@, body, false) == Some(e@));
            return Err(e);
        }
    }
    assert(acl_fault(user.role@, body, true) is None);
    Ok(
        NewAclRule {
            route_id: body.route_id,
            action,
            source_cidr: body.source_cidr,
            source_port: widen(body.source_port),
            target_host: body.target_host,
            target_port: widen(body.target_port),
        },
    )
}

/// Whether a rule may be stored under the id `id`, where `route_found` is whether the route that
/// it names is there, and the record for the audit log.
pub fn acl_rule_for(user: &User, id: &String, rule: &NewAclRule, route_found: bool) -> (r: Result<
    AuditRecord,
    ApiError,
>)
    ensures
        if rule.route_id is Some && !route_found {
            r matches Err(e) && e@ == api::error(
                404,
                "ROUTE_NOT_FOUND"@,
                "route_id does not exist"@,
            )
        } else {
            r matches Ok(a) && a.says(
                Some(user.id),
                "acl.create"@,
                "acl_rule"@,
                *id,
                AuditMeta::AclRule { action: rule.action, route_id: rule.route_id },
            )
        },
{
    if rule.route_id.is_some() && !route_found {
        return Err(ApiError::not_found("ROUTE_NOT_FOUND", "route_id does not exist"));
    }
    Ok(
        AuditRecord {
            user_id: Some(user.id.clone()),
            action: "acl.create",
            resource_type: "acl_rule",
            resource_id: id.clone(),
            metadata: AuditMeta::AclRule {
                action: rule.action.clone(),
                route_id: rule.route_id.clone(),
            },
        },
    )
}

/// The stored rule after it was written; that it is missing is a failure of the server.
pub fn rule_after(row: Option<AclRuleRow>) -> (r: Result<AclRuleRow, ApiError>)
    ensures
        match row {
            Some(row) => r == Ok::<AclRuleRow, ApiError>(row),
            None => r matches Err(e) && e@ == api::internal_spec(
                "acl rule not found after create"@,
            ),
        },
{
    match row {
        Some(row) => Ok(row),
        None => Err(ApiError::internal("acl rule not found after create")),
    }
}

/// Whether a rule may be deleted, where `found` is whether it is there, and the record for the
/// audit log.
pub fn delete_acl_rule(user: &User, id: &String, found: bool) -> (r: Result<AuditRecord, ApiError>)
    ensures
        if !rbac::grants(user.role@, Permission::RoutesWrite) {
            r matches Err(e) && e@ == rbac::lacking(Permission::RoutesWrite)
        } else if !found {
            r matches Err(e) && e@ == api::error(
                404,
                "ACL_RULE_NOT_FOUND"@,
                "acl rule does not exist"@,
            )
        } else {
            r matches Ok(a) && a.says(
                Some(user.id),
                "acl.delete"@,
                "acl_rule"@,
                *id,
                AuditMeta::Nothing,
            )
        },
{
    if let Err(e) = require_permission(user, Permission::RoutesWrite) {
        return Err(e);
    }
    if !found {
        return Err(ApiError::not_found("ACL_RULE_NOT_FOUND", "acl rule does not exist"));
    }
    Ok(
        AuditRecord {
            user_id: Some(user.id.clone()),
            action: "acl.delete",
            resource_type: "acl_rule",
            resource_id: id.clone(),
            metadata: AuditMeta::Nothing,
        },
    )
}

/// A stored port is answered as the number that it is, and one that is no port not at all.
pub proof fn stored_port_is_answered(p: Option<i64>)
    ensures
        port_or_none(p) is Some <==> p is Some && 0 <= p->0 < 0x1_0000,
        port_or_none(p) matches Some(n) ==> n as int == p->0 as int,
{
}

/// A port is stored as the number that it is, so that it is answered and applied as it was given.
pub proof fn port_is_stored_as_it_is(p: Option<u16>)
    ensures
        wide(p) is Some <==> p is Some,
        wide(p) matches Some(n) ==> n as int == p->0 as int,
        port_or_none(wide(p)) == p,
        crate::acl_store::port_of(wide(p)) == p,
{
}

/// A rule is accepted, as far as the request goes, exactly from someone who may write routes, with
/// the action `allow` or `deny`, in any case and with white space around it or not, and with a
/// source that is a CIDR range, if there is one.
pub proof fn which_rules_are_accepted(role: Seq<char>, r: CreateAclRuleRequest, cidr_ok: bool)
    ensures
        acl_fault(role, r, cidr_ok) is None <==> {
            &&& rbac::grants(role, Permission::RoutesWrite)
            &&& text::ascii_lower(text::trimmed(r.action@)) == "allow"@ || text::ascii_lower(
                text::trimmed(r.action@),
            ) == "deny"@
            &&& r.source_cidr is Some ==> cidr_ok
        },
        !rbac::grants(role, Permission::RoutesWrite) ==> acl_fault(role, r, cidr_ok) == Some(
            rbac::lacking(Permission::RoutesWrite),
        ),
        rbac::grants(role, Permission::RoutesWrite) && acl_fault(role, r, cidr_ok) is Some
            ==> acl_fault(role, r, cidr_ok)->0.status == 422,
        rbac::grants(role, Permission::RoutesWrite) && text::ascii_lower(text::trimmed(r.action@))
            != "allow"@ && text::ascii_lower(text::trimmed(r.action@)) != "deny"@ ==> acl_fault(
            role,
            r,
            cidr_ok,
        )->0.code == "INVALID_ACTION"@ && acl_fault(role, r, cidr_ok)->0.message
            == "action must be 'allow' or 'deny'"@,
        rbac::grants(role, Permission::RoutesWrite) && (text::ascii_lower(text::trimmed(r.action@))
            == "allow"@ || text::ascii_lower(text::trimmed(r.action@)) == "deny"@)
            && r.source_cidr is Some && !cidr_ok ==> acl_fault(role, r, cidr_ok)->0.code
            == "INVALID_CIDR"@ && acl_fault(role, r, cidr_ok)->0.message == "source_cidr "@
            + text::quoted(r.source_cidr->0@) + " is not a valid CIDR"@,
{
}

/// A rule that was accepted and stored is loaded as it was asked for: it allows or denies as the
/// request says, and has the request's conditions and no other.
pub proof fn stored_rule_is_what_was_asked(
    r: CreateAclRuleRequest,
    n: NewAclRule,
    row: AclRuleRow,
    role: Seq<char>,
)
    requires
        acl_fault(role, r, true) is None,
        n.action@ == action_text(r),
        n.source_cidr == r.source_cidr,
        n.source_port == wide(r.source_port),
        n.target_host == r.target_host,
        n.target_port == wide(r.target_port),
        row.action == n.action,
        row.source_cidr == n.source_cidr,
        row.source_port == n.source_port,
        row.target_host == n.target_host,
        row.target_port == n.target_port,
    ensures
        crate::acl_store::rule_of(row) matches Some(rule) && {
            &&& rule.source_cidr == r.source_cidr
            &&& rule.source_port == r.source_port
            &&& rule.target_host == r.target_host
            &&& rule.target_port == r.target_port
            &&& rule.action is Deny <==> text::ascii_lower(text::trimmed(r.action@)) == "deny"@
        },
{
    crate::acl_store::rows_that_hold_a_rule(row);
    let rule = crate::acl_store::rule_of(row)->0;
    crate::acl_store::rule_has_the_conditions_of_its_row(row, rule);
}

} // verus!
