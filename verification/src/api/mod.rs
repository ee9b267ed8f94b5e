//! The rules of the REST API: who may do what, what is refused, and what a request changes.
use crate::text::concat;
use vstd::prelude::*;

pub mod acl;
pub mod admin;
pub mod audit;
pub mod auth;
pub mod enroll;
pub mod health;
pub mod nodes;
pub mod rbac;
pub mod routes;
pub mod setup;
pub mod ws;

verus! {

/// An error that a request is answered with.
#[derive(Debug)]
pub struct ApiError {
    /// The HTTP status.
    pub status: u16,
    /// The stable code for machines.
    pub code: &'static str,
    /// The description for people.
    pub message: String,
}

/// What an API error says.
#[verifier::ext_equal]
pub struct ErrorView {
    pub status: u16,
    pub code: Seq<char>,
    pub message: Seq<char>,
}

impl View for ApiError {
    type V = ErrorView;

    open spec fn view(&self) -> ErrorView {
        ErrorView { status: self.status, code: self.code@, message: self.message@ }
    }
}

/// The error with the given parts.
pub open spec fn error(status: u16, code: Seq<char>, message: Seq<char>) -> ErrorView {
    ErrorView { status, code, message }
}

/// The error of a request that is not authenticated.
pub open spec fn unauthorized_spec(message: Seq<char>) -> ErrorView {
    error(401, "UNAUTHORIZED"@, message)
}

/// The error of a request that the user may not make.
pub open spec fn forbidden_spec(message: Seq<char>) -> ErrorView {
    error(403, "FORBIDDEN"@, message)
}

/// The error of a failure within the server.
pub open spec fn internal_spec(message: Seq<char>) -> ErrorView {
    error(500, "INTERNAL"@, message)
}

impl ApiError {
    /// The request is not authenticated.
    pub fn unauthorized(message: &str) -> (e: ApiError)
        ensures
            e@ == unauthorized_spec(message@),
    {
        ApiError { status: 401, code: "UNAUTHORIZED", message: message.to_owned() }
    }

    /// The user may not make the request.
    pub fn forbidden(message: &str) -> (e: ApiError)
        ensures
            e@ == forbidden_spec(message@),
    {
        ApiError { status: 403, code: "FORBIDDEN", message: message.to_owned() }
    }

    /// What the request speaks of is not there.
    pub fn not_found(code: &'static str, message: &str) -> (e: ApiError)
        ensures
            e@ == error(404, code@, message@),
    {
        ApiError { status: 404, code, message: message.to_owned() }
    }

    /// The request clashes with what is there.
    pub fn conflict(code: &'static str, message: &str) -> (e: ApiError)
        ensures
            e@ == error(409, code@, message@),
    {
        ApiError { status: 409, code, message: message.to_owned() }
    }

    /// The request makes no sense.
    pub fn unprocessable(code: &'static str, message: &str) -> (e: ApiError)
        ensures
            e@ == error(422, code@, message@),
    {
        ApiError { status: 422, code, message: message.to_owned() }
    }

    /// The server failed.
    pub fn internal(message: &str) -> (e: ApiError)
        ensures
            e@ == internal_spec(message@),
    {
        ApiError { status: 500, code: "INTERNAL", message: message.to_owned() }
    }

    /// The client has to slow down.
    pub fn too_many_requests(code: &'static str, message: &str) -> (e: ApiError)
        ensures
            e@ == error(429, code@, message@),
    {
        ApiError { status: 429, code, message: message.to_owned() }
    }
}

/// An error of the database: what it says, and whether it is a violated unique constraint.
#[derive(Debug)]
pub struct DbError {
    pub unique_violation: bool,
    pub text: String,
}

/// The API error for a database error on the resource `resource`.
pub fn map_db_error(e: &DbError, resource: &str) -> (r: ApiError)
    ensures
        r@ == (if e.unique_violation {
            error(
                409,
                "DUPLICATE"@,
                resource@ + " already exists (unique constraint violated)"@,
            )
        } else {
            internal_spec(e.text@)
        }),
{
    if e.unique_violation {
        ApiError::conflict(
            "DUPLICATE",
            concat(resource, " already exists (unique constraint violated)").as_str(),
        )
    } else {
        ApiError::internal(e.text.as_str())
    }
}

/// What an audit record says beside the action and the resource.
#[allow(inconsistent_fields)]
#[derive(Debug)]
pub enum AuditMeta {
    Nothing,
    Username { username: String },
    Name { name: String },
    Enabled { enabled: bool },
    /// The first administrator was set up.
    Setup,
    CredentialType { credential_type: String },
    /// A bootstrap credential was used up.
    EnrollRevoke,
    /// A runtime credential was issued for a bootstrap credential.
    EnrollCreate,
    AclRule { action: String, route_id: Option<String> },
}

/// A record for the audit log.
#[derive(Debug)]
pub struct AuditRecord {
    /// Who did it; nobody where a machine did.
    pub user_id: Option<String>,
    pub action: &'static str,
    pub resource_type: &'static str,
    pub resource_id: String,
    pub metadata: AuditMeta,
}

impl AuditRecord {
    /// The record says this.
    pub open spec fn says(
        self,
        user_id: Option<String>,
        action: Seq<char>,
        resource_type: Seq<char>,
        resource_id: String,
        metadata: AuditMeta,
    ) -> bool {
        &&& self.user_id == user_id
        &&& self.action@ == action
        &&& self.resource_type@ == resource_type
        &&& self.resource_id == resource_id
        &&& self.metadata == metadata
    }
}

/// Who is not logged in is answered with 401, who may not with 403, and a failure of the server
/// with 500, each with the message that was given.
pub proof fn statuses_of_errors(message: Seq<char>)
    ensures
        unauthorized_spec(message).status == 401,
        unauthorized_spec(message).code == "UNAUTHORIZED"@,
        forbidden_spec(message).status == 403,
        forbidden_spec(message).code == "FORBIDDEN"@,
        internal_spec(message).status == 500,
        internal_spec(message).code == "INTERNAL"@,
        unauthorized_spec(message).message == message,
        forbidden_spec(message).message == message,
        internal_spec(message).message == message,
{
}

/// An error has the parts that it was made of.
pub proof fn errors_have_their_parts(status: u16, code: Seq<char>, message: Seq<char>)
    ensures
        error(status, code, message).status == status,
        error(status, code, message).code == code,
        error(status, code, message).message == message,
{
}

/// A record names who did what to what.
pub proof fn records_name_who_did_what(
    r: AuditRecord,
    user_id: Option<String>,
    action: Seq<char>,
    resource_type: Seq<char>,
    resource_id: String,
    metadata: AuditMeta,
)
    requires
        r.says(user_id, action, resource_type, resource_id, metadata),
    ensures
        r.user_id == user_id,
        r.action@ == action,
        r.resource_type@ == resource_type,
        r.resource_id == resource_id,
        r.metadata == metadata,
{
}

} // verus!
