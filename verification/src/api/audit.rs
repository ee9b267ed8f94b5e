//! Queries of the audit log.
use crate::api::ApiError;
use crate::api::rbac::{self, Permission, require_permission};
use crate::session::User;
use vstd::prelude::*;

verus! {

/// How many records a query gives where it does not say.
pub const DEFAULT_LIMIT: i64 = 100;

/// How many records a query may ask for.
pub const MAX_LIMIT: i64 = 1000;

/// How many records a query gives where it does not say.
pub fn default_limit() -> (r: i64)
    ensures
        r == 100,
{
    DEFAULT_LIMIT
}

/// A query of the audit log.
#[derive(Debug)]
pub struct AuditQuery {
    pub user_id: Option<String>,
    pub action: Option<String>,
    pub limit: i64,
    pub offset: i64,
}

/// A stored record.
#[derive(Debug)]
pub struct AuditRow {
    pub id: String,
    pub user_id: Option<String>,
    pub action: String,
    pub resource_type: Option<String>,
    pub resource_id: Option<String>,
    pub ip: Option<String>,
    pub user_agent: Option<String>,
    pub metadata: Option<String>,
    pub created_at: String,
}

/// A record as it is answered.
#[derive(Debug)]
pub struct AuditEntry {
    pub id: String,
    pub user_id: Option<String>,
    pub action: String,
    pub resource_type: Option<String>,
    pub resource_id: Option<String>,
    pub ip: Option<String>,
    pub user_agent: Option<String>,
    pub metadata: Option<String>,
    pub created_at: String,
}

/// The record that a row is answered as.
pub open spec fn entry_of(row: AuditRow) -> AuditEntry {
    AuditEntry {
        id: row.id,
        user_id: row.user_id,
        action: row.action,
        resource_type: row.resource_type,
        resource_id: row.resource_id,
        ip: row.ip,
        user_agent: row.user_agent,
        metadata: row.metadata,
        created_at: row.created_at,
    }
}

/// The record that a row is answered as.
pub fn audit_entry(row: AuditRow) -> (r: AuditEntry)
    ensures
        r == entry_of(row),
{
    AuditEntry {
        id: row.id,
        user_id: row.user_id,
        action: row.action,
        resource_type: row.resource_type,
        resource_id: row.resource_id,
        ip: row.ip,
        user_agent: row.user_agent,
        metadata: row.metadata,
        created_at: row.created_at,
    }
}

/// The limit that a query asks for, brought into the range from 1 to `MAX_LIMIT`.
pub open spec fn clamped(limit: i64) -> i64 {
    if limit < 1 {
        1
    } else if limit > MAX_LIMIT {
        MAX_LIMIT
    } else {
        limit
    }
}

/// A query of a user who may read the log, with its limit and offset brought into range.
pub fn list_audit_logs(user: &User, q: AuditQuery) -> (r: Result<AuditQuery, ApiError>)
    ensures
        match r {
            Ok(n) => rbac::grants(user.role@, Permission::AuditRead) && n == (AuditQuery {
                limit: clamped(q.limit),
                offset: if q.offset < 0 {
                    0
                } else {
                    q.offset
                },
                ..q
            }),
            Err(e) => !rbac::grants(user.role@, Permission::AuditRead) && e@ == rbac::lacking(
                Permission::AuditRead,
            ),
        },
{
    if let Err(e) = require_permission(user, Permission::AuditRead) {
        return Err(e);
    }
    let limit: i64 = if q.limit < 1 {
        1
    } else if q.limit > MAX_LIMIT {
        MAX_LIMIT
    } else {
        q.limit
    };
    let offset: i64 = if q.offset < 0 {
        0
    } else {
        q.offset
    };
    Ok(AuditQuery { user_id: q.user_id, action: q.action, limit, offset })
}

/// A record is answered as it is stored.
pub proof fn answer_is_the_stored_record(row: AuditRow)
    ensures
        entry_of(row).id == row.id,
        entry_of(row).user_id == row.user_id,
        entry_of(row).action == row.action,
        entry_of(row).resource_type == row.resource_type,
        entry_of(row).resource_id == row.resource_id,
        entry_of(row).ip == row.ip,
        entry_of(row).user_agent == row.user_agent,
        entry_of(row).metadata == row.metadata,
        entry_of(row).created_at == row.created_at,
{
}

/// A query gives at least one and at most a thousand records, and as many as it asks for where
/// that lies between.
pub proof fn how_many_records_a_query_gives(limit: i64)
    ensures
        1 <= clamped(limit) <= 1000,
        1 <= limit <= 1000 ==> clamped(limit) == limit,
        limit < 1 ==> clamped(limit) == 1,
        limit > 1000 ==> clamped(limit) == 1000,
{
}

} // verus!
