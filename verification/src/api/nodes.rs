//! Nodes and their credentials over the API.
use crate::api::{self, ApiError, AuditMeta, AuditRecord};
use crate::api::rbac::{self, Permission, require_permission};
use crate::clock::{self, parse_rfc3339};
use crate::event::{BusEvent, EventData, NODE_CREATED, NODE_UPDATED};
use crate::session::User;
use crate::text::{self, concat, debug_text, push_str, str_eq, trim};
use vstd::prelude::*;

verus! {

/// A stored node.
#[derive(Debug)]
pub struct NodeRow {
    pub id: String,
    pub name: String,
    pub description: Option<String>,
    pub status: String,
    pub hostname: Option<String>,
    pub platform: Option<String>,
    pub architecture: Option<String>,
    pub agent_version: Option<String>,
    pub remote_addr: Option<String>,
    pub connected_at: Option<String>,
    pub last_seen_at: Option<String>,
    pub config_version: i64,
    pub applied_config_version: i64,
    pub config_status: String,
}

/// A node as it is answered.
#[derive(Debug)]
pub struct Node {
    pub id: String,
    pub name: String,
    pub description: Option<String>,
    pub status: String,
    pub hostname: Option<String>,
    pub platform: Option<String>,
    pub architecture: Option<String>,
    pub agent_version: Option<String>,
    pub remote_addr: Option<String>,
    pub connected_at: Option<String>,
    pub last_seen_at: Option<String>,
    pub config_version: i64,
    pub applied_config_version: i64,
    pub config_status: String,
}

/// The node that a row is answered as.
pub open spec fn node_of(row: NodeRow) -> Node {
    Node {
        id: row.id,
        name: row.name,
        description: row.description,
        status: row.status,
        hostname: row.hostname,
        platform: row.platform,
        architecture: row.architecture,
        agent_version: row.agent_version,
        remote_addr: row.remote_addr,
        connected_at: row.connected_at,
        last_seen_at: row.last_seen_at,
        config_version: row.config_version,
        applied_config_version: row.applied_config_version,
        config_status: row.config_status,
    }
}

/// The node that a row is answered as.
pub fn node_response(row: NodeRow) -> (n: Node)
    ensures
        n == node_of(row),
{
    Node {
        id: row.id,
        name: row.name,
        description: row.description,
        status: row.status,
        hostname: row.hostname,
        platform: row.platform,
        architecture: row.architecture,
        agent_version: row.agent_version,
        remote_addr: row.remote_addr,
        connected_at: row.connected_at,
        last_seen_at: row.last_seen_at,
        config_version: row.config_version,
        applied_config_version: row.applied_config_version,
        config_status: row.config_status,
    }
}

/// A request for a new node.
#[derive(Debug)]
pub struct CreateNodeRequest {
    pub name: String,
    pub description: Option<String>,
}

/// A request to change a node. What is absent stays.
#[derive(Debug)]
pub struct UpdateNodeRequest {
    pub name: Option<String>,
    pub description: Option<String>,
}

/// A request for a credential of a node.
#[derive(Debug)]
pub struct CreateCredentialRequest {
    pub credential_type: String,
    pub expires_at: Option<String>,
}

/// The answer to a new node: the node, and its bootstrap token, which is shown this once.
#[derive(Debug)]
pub struct CreateNodeResponse {
    pub node: Node,
    pub bootstrap_token: String,
}

/// The answer to a new credential: the token is shown this once.
#[derive(Debug)]
pub struct CredentialResponse {
    pub id: String,
    pub token: String,
}

/// A stored credential.
#[derive(Debug)]
pub struct CredentialRow {
    pub id: String,
    pub node_id: String,
    pub expires_at: Option<String>,
    pub revoked_at: Option<String>,
}

/// A credential to be stored. Of its token only the hash is.
#[derive(Debug)]
pub struct NewCredential {
    pub id: String,
    pub node_id: String,
    pub credential_type: String,
    pub expires_at: Option<String>,
    /// The token that is to be hashed.
    pub token: String,
}

/// A request for a credential that does not say which gets a runtime token.
pub fn default_credential_type() -> (s: String)
    ensures
        s@ == "token"@,
{
    "token".to_owned()
}

/// The error for a node that is not there.
pub open spec fn node_not_found() -> api::ErrorView {
    api::error(404, "NODE_NOT_FOUND"@, "node does not exist"@)
}

/// The error for a name that is empty.
pub open spec fn invalid_name() -> api::ErrorView {
    api::error(422, "INVALID_NAME"@, "name must not be empty"@)
}

/// The error for a name that another node has.
pub open spec fn duplicate_name(name: Seq<char>) -> api::ErrorView {
    api::error(
        409,
        "DUPLICATE_NAME"@,
        "node "@ + text::quoted(name) + " already exists"@,
    )
}

/// The stored node that a request speaks of, for a user with the permission `perm`.
pub fn existing_node(user: &User, perm: Permission, row: Option<NodeRow>) -> (r: Result<
    NodeRow,
    ApiError,
>)
    ensures
        if !rbac::grants(user.role@, perm) {
            r matches Err(e) && e@ == rbac::lacking(perm)
        } else {
            match row {
                Some(row) => r == Ok::<NodeRow, ApiError>(row),
                None => r matches Err(e) && e@ == node_not_found(),
            }
        },
{
    if let Err(e) = require_permission(user, perm) {
        return Err(e);
    }
    match row {
        Some(row) => Ok(row),
        None => Err(ApiError::not_found("NODE_NOT_FOUND", "node does not exist")),
    }
}

/// The stored node after a change; that it is missing is a failure of the server.
pub fn node_after(row: Option<NodeRow>, create: bool) -> (r: Result<Node, ApiError>)
    ensures
        match row {
            Some(row) => r == Ok::<Node, ApiError>(node_of(row)),
            None => r matches Err(e) && e@ == api::internal_spec(
                if create {
                    "node not found after create"@
                } else {
                    "node not found after update"@
                },
            ),
        },
{
    match row {
        Some(row) => Ok(node_response(row)),
        None => Err(
            ApiError::internal(
                if create {
                    "node not found after create"
                } else {
                    "node not found after update"
                },
            ),
        ),
    }
}

/// A node whose name has to be looked for before it is written.
#[derive(Debug)]
pub struct NodeDraft {
    pub name: String,
    pub description: Option<String>,
    /// Whether it has to be asked if another node has the name.
    pub ask_name: bool,
}

/// A request for a new node, up to the question whether its name is free.
pub fn create_node(user: &User, body: CreateNodeRequest) -> (r: Result<NodeDraft, ApiError>)
    ensures
        if !rbac::grants(user.role@, Permission::NodesWrite) {
            r matches Err(e) && e@ == rbac::lacking(Permission::NodesWrite)
        } else if text::trimmed(body.name@).len() == 0 {
            r matches Err(e) && e@ == invalid_name()
        } else {
            r matches Ok(d) && d.name@ == text::trimmed(body.name@) && d.description
                == body.description && d.ask_name
        },
{
    if let Err(e) = require_permission(user, Permission::NodesWrite) {
        return Err(e);
    }
    let name = trim(body.name.as_str());
    if name.as_str().is_empty() {
        return Err(ApiError::unprocessable("INVALID_NAME", "name must not be empty"));
    }
    Ok(NodeDraft { name, description: body.description, ask_name: true })
}

/// A change to the stored node `existing`, up to the question whether its name is free, which is
/// asked only where the name changes.
pub fn update_node(existing: &NodeRow, body: UpdateNodeRequest) -> (r: Result<NodeDraft, ApiError>)
    ensures
        if body.name is Some && text::trimmed(body.name->0@).len() == 0 {
            r matches Err(e) && e@ == invalid_name()
        } else {
            &&& r matches Ok(d)
            &&& d.name@ == (match body.name {
                Some(n) => text::trimmed(n@),
                None => existing.name@,
            })
            &&& d.description == (if body.description is Some {
                body.description
            } else {
                existing.description
            })
            &&& d.ask_name == (d.name@ != existing.name@)
        },
{
    let name = match body.name {
        Some(n) => {
            let n = trim(n.as_str());
            if n.as_str().is_empty() {
                return Err(ApiError::unprocessable("INVALID_NAME", "name must not be empty"));
            }
            n
        },
        None => existing.name.clone(),
    };
    let description = match body.description {
        Some(d) => Some(d),
        None => existing.description.clone(),
    };
    let ask_name = !str_eq(name.as_str(), existing.name.as_str());
    Ok(NodeDraft { name, description, ask_name })
}

/// Whether a node may be written, where `taken` is whether another one has its name.
pub fn check_name(draft: &NodeDraft, taken: bool) -> (r: Result<(), ApiError>)
    ensures
        match r {
            Ok(_) => !taken,
            Err(e) => taken && e@ == duplicate_name(draft.name@),
        },
{
    if taken {
        let mut m = concat("node ", debug_text(draft.name.as_str()).as_str());
        push_str(&mut m, " already exists");
        return Err(ApiError::conflict("DUPLICATE_NAME", m.as_str()));
    }
    Ok(())
}

/// The one-time bootstrap credential of a new node, with its random token. It does not expire.
pub fn bootstrap_credential(id: String, node_id: &String, token: String) -> (c: NewCredential)
    ensures
        c.token == token,
        c.id == id,
        c.node_id == *node_id,
        c.credential_type@ == "bootstrap"@,
        c.expires_at is None,
{
    NewCredential {
        id,
        node_id: node_id.clone(),
        credential_type: "bootstrap".to_owned(),
        expires_at: None,
        token,
    }
}

/// The answer to a new node with the bootstrap credential `c`, whose token it shows.
pub fn create_response(node: Node, c: NewCredential) -> (r: CreateNodeResponse)
    ensures
        r == (CreateNodeResponse { node, bootstrap_token: c.token }),
{
    CreateNodeResponse { node, bootstrap_token: c.token }
}

/// What follows once a node was written: the record for the audit log, and the event.
#[derive(Debug)]
pub struct NodeFollowUp {
    pub audit: AuditRecord,
    pub event: BusEvent,
}

/// What follows once a node was created (`create`) or changed.
pub fn node_written(user: &User, id: &String, name: &String, create: bool) -> (f: NodeFollowUp)
    ensures
        f.audit.says(
            Some(user.id),
            if create {
                "node.create"@
            } else {
                "node.update"@
            },
            "node"@,
            *id,
            AuditMeta::Name { name: *name },
        ),
        f.event.event_type@ == (if create {
            "node.created"@
        } else {
            "node.updated"@
        }),
        f.event.data == (EventData::Node { node_id: *id, name: Some(*name) }),
{
    NodeFollowUp {
        audit: AuditRecord {
            user_id: Some(user.id.clone()),
            action: if create {
                "node.create"
            } else {
                "node.update"
            },
            resource_type: "node",
            resource_id: id.clone(),
            metadata: AuditMeta::Name { name: name.clone() },
        },
        event: BusEvent {
            event_type: if create {
                NODE_CREATED
            } else {
                NODE_UPDATED
            },
            data: EventData::Node { node_id: id.clone(), name: Some(name.clone()) },
        },
    }
}

/// Whether a node may be deleted, where `found` is whether it is there, and the record for the
/// audit log.
pub fn delete_node(user: &User, id: &String, found: bool) -> (r: Result<AuditRecord, ApiError>)
    ensures
        if !rbac::grants(user.role@, Permission::NodesWrite) {
            r matches Err(e) && e@ == rbac::lacking(Permission::NodesWrite)
        } else if !found {
            r matches Err(e) && e@ == node_not_found()
        } else {
            r matches Ok(a) && a.says(
                Some(user.id),
                "node.delete"@,
                "node"@,
                *id,
                AuditMeta::Nothing,
            )
        },
{
    if let Err(e) = require_permission(user, Permission::NodesWrite) {
        return Err(e);
    }
    if !found {
        return Err(ApiError::not_found("NODE_NOT_FOUND", "node does not exist"));
    }
    Ok(
        AuditRecord {
            user_id: Some(user.id.clone()),
            action: "node.delete",
            resource_type: "node",
            resource_id: id.clone(),
            metadata: AuditMeta::Nothing,
        },
    )
}

/// What a request for a credential is refused with before the node is looked for.
pub open spec fn credential_fault(role: Seq<char>, r: CreateCredentialRequest) -> Option<
    api::ErrorView,
> {
    if !rbac::grants(role, Permission::NodesWrite) {
        Some(rbac::lacking(Permission::NodesWrite))
    } else if r.credential_type@ != "token"@ && r.credential_type@ != "bootstrap"@ {
        Some(
            api::error(
                422,
                "INVALID_TYPE"@,
                "only credential types 'token' and 'bootstrap' are supported"@,
            ),
        )
    } else if r.expires_at is Some && clock::rfc3339_nanos(r.expires_at->0@) is None {
        Some(
            api::error(
                422,
                "INVALID_EXPIRES_AT"@,
                "expires_at must be a valid RFC3339 timestamp"@,
            ),
        )
    } else {
        None
    }
}

/// What a request for a credential is refused with, where `expiry_ok` is whether the moment of
/// its expiry could be read.
pub fn check_credential(user: &User, body: &CreateCredentialRequest, expiry_ok: bool) -> (r: Result<
    (),
    ApiError,
>)
    ensures
        if !rbac::grants(user.role@, Permission::NodesWrite) {
            r matches Err(e) && e@ == rbac::lacking(Permission::NodesWrite)
        } else if body.credential_type@ != "token"@ && body.credential_type@ != "bootstrap"@ {
            r matches Err(e) && e@ == api::error(
                422,
                "INVALID_TYPE"@,
                "only credential types 'token' and 'bootstrap' are supported"@,
            )
        } else if body.expires_at is Some && !expiry_ok {
            r matches Err(e) && e@ == api::error(
                422,
                "INVALID_EXPIRES_AT"@,
                "expires_at must be a valid RFC3339 timestamp"@,
            )
        } else {
            r is Ok
        },
{
    if let Err(e) = require_permission(user, Permission::NodesWrite) {
        return Err(e);
    }
    if !str_eq(body.credential_type.as_str(), "token") && !str_eq(
        body.credential_type.as_str(),
        "bootstrap",
    ) {
        return Err(
            ApiError::unprocessable(
                "INVALID_TYPE",
                "only credential types 'token' and 'bootstrap' are supported",
            ),
        );
    }
    if body.expires_at.is_some() && !expiry_ok {
        return Err(
            ApiError::unprocessable(
                "INVALID_EXPIRES_AT",
                "expires_at must be a valid RFC3339 timestamp",
            ),
        );
    }
    Ok(())
}

/// A request for a credential, up to the question whether the node exists.
pub fn create_credential(user: &User, body: &CreateCredentialRequest) -> (r: Result<(), ApiError>)
    ensures
        match r {
            Ok(_) => credential_fault(user.role@, *body) is None,
            Err(e) => credential_fault(user.role@, *body) == Some(e@),
        },
{
    let expiry_ok = match &body.expires_at {
        Some(t) => parse_rfc3339(t.as_str()).is_some(),
        None => true,
    };
    check_credential(user, body, expiry_ok)
}

/// A credential with the random token `token` that may be stored, where `found` is whether the
/// node is there, the record for the audit log, and the answer once both are written. The token
/// that it shows is the one whose hash is stored.
pub fn credential_for(
    user: &User,
    id: &String,
    node_id: &String,
    body: CreateCredentialRequest,
    token: String,
    found: bool,
) -> (r: Result<(NewCredential, AuditRecord, CredentialResponse), ApiError>)
    ensures
        if found {
            &&& r matches Ok((c, a, shown))
            &&& c.token == token
            &&& shown == (CredentialResponse { id: *id, token })
            &&& c.id == *id
            &&& c.node_id == *node_id
            &&& c.credential_type == body.credential_type
            &&& c.expires_at == body.expires_at
            &&& a.says(
                Some(user.id),
                "credential.create"@,
                "credential"@,
                *id,
                AuditMeta::CredentialType { credential_type: body.credential_type },
            )
        } else {
            r matches Err(e) && e@ == node_not_found()
        },
{
    if !found {
        return Err(ApiError::not_found("NODE_NOT_FOUND", "node does not exist"));
    }
    let audit = AuditRecord {
        user_id: Some(user.id.clone()),
        action: "credential.create",
        resource_type: "credential",
        resource_id: id.clone(),
        metadata: AuditMeta::CredentialType { credential_type: body.credential_type.clone() },
    };
    Ok(
        (
            NewCredential {
                id: id.clone(),
                node_id: node_id.clone(),
                credential_type: body.credential_type,
                expires_at: body.expires_at,
                token: token.clone(),
            },
            audit,
            CredentialResponse { id: id.clone(), token },
        ),
    )
}

/// Whether the stored credential `cred` may be revoked on behalf of the node `node_id`, and the
/// record for the audit log.
pub fn revoke_credential(
    user: &User,
    node_id: &str,
    credential_id: &String,
    cred: Option<&CredentialRow>,
) -> (r: Result<AuditRecord, ApiError>)
    ensures
        if !rbac::grants(user.role@, Permission::NodesWrite) {
            r matches Err(e) && e@ == rbac::lacking(Permission::NodesWrite)
        } else {
            match cred {
                None => r matches Err(e) && e@ == api::error(
                    404,
                    "CREDENTIAL_NOT_FOUND"@,
                    "credential does not exist"@,
                ),
                Some(c) => if c.node_id@ != node_id@ {
                    r matches Err(e) && e@ == api::error(
                        404,
                        "CREDENTIAL_NOT_FOUND"@,
                        "credential does not belong to node"@,
                    )
                } else {
                    r matches Ok(a) && a.says(
                        Some(user.id),
                        "credential.revoke"@,
                        "credential"@,
                        *credential_id,
                        AuditMeta::Nothing,
                    )
                },
            }
        },
{
    if let Err(e) = require_permission(user, Permission::NodesWrite) {
        return Err(e);
    }
    match cred {
        None => Err(ApiError::not_found("CREDENTIAL_NOT_FOUND", "credential does not exist")),
        Some(c) => {
            if !str_eq(c.node_id.as_str(), node_id) {
                return Err(
                    ApiError::not_found(
                        "CREDENTIAL_NOT_FOUND",
                        "credential does not belong to node",
                    ),
                );
            }
            Ok(
                AuditRecord {
                    user_id: Some(user.id.clone()),
                    action: "credential.revoke",
                    resource_type: "credential",
                    resource_id: credential_id.clone(),
                    metadata: AuditMeta::Nothing,
                },
            )
        },
    }
}

/// A node is answered as it is stored: every column of the row is found in the answer again.
pub proof fn answer_is_the_stored_node(row: NodeRow)
    ensures
        node_of(row).id == row.id,
        node_of(row).name == row.name,
        node_of(row).description == row.description,
        node_of(row).status == row.status,
        node_of(row).hostname == row.hostname,
        node_of(row).platform == row.platform,
        node_of(row).architecture == row.architecture,
        node_of(row).agent_version == row.agent_version,
        node_of(row).remote_addr == row.remote_addr,
        node_of(row).connected_at == row.connected_at,
        node_of(row).last_seen_at == row.last_seen_at,
        node_of(row).config_version == row.config_version,
        node_of(row).applied_config_version == row.applied_config_version,
        node_of(row).config_status == row.config_status,
{
}

/// A credential is issued, as far as the request goes, exactly to someone who may write nodes, of
/// one of the two types, and with an expiry that is a timestamp, if there is one.
pub proof fn which_credentials_are_issued(role: Seq<char>, r: CreateCredentialRequest)
    ensures
        credential_fault(role, r) is None <==> {
            &&& rbac::grants(role, Permission::NodesWrite)
            &&& r.credential_type@ == "token"@ || r.credential_type@ == "bootstrap"@
            &&& r.expires_at matches Some(t) ==> clock::rfc3339_nanos(t@) is Some
        },
        !rbac::grants(role, Permission::NodesWrite) ==> credential_fault(role, r) == Some(
            rbac::lacking(Permission::NodesWrite),
        ),
        rbac::grants(role, Permission::NodesWrite) && credential_fault(role, r) is Some
            ==> credential_fault(role, r)->0.status == 422,
        rbac::grants(role, Permission::NodesWrite) && credential_fault(role, r) is Some
            ==> credential_fault(role, r)->0.code == (if r.credential_type@ == "token"@
            || r.credential_type@ == "bootstrap"@ {
            "INVALID_EXPIRES_AT"@
        } else {
            "INVALID_TYPE"@
        }) && credential_fault(role, r)->0.message == (if r.credential_type@ == "token"@
            || r.credential_type@ == "bootstrap"@ {
            "expires_at must be a valid RFC3339 timestamp"@
        } else {
            "only credential types 'token' and 'bootstrap' are supported"@
        }),
{
}

/// A node that is not there is answered with 404, an empty name with 422, and a name that another
/// node has with 409.
pub proof fn what_is_wrong_with_a_node(name: Seq<char>)
    ensures
        node_not_found().status == 404,
        node_not_found().code == "NODE_NOT_FOUND"@,
        invalid_name().status == 422,
        invalid_name().code == "INVALID_NAME"@,
        duplicate_name(name).status == 409,
        duplicate_name(name).code == "DUPLICATE_NAME"@,
        node_not_found().message == "node does not exist"@,
        invalid_name().message == "name must not be empty"@,
        duplicate_name(name).message == "node "@ + text::quoted(name) + " already exists"@,
{
}

} // verus!
