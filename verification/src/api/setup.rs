//! The first start: the first administrator is set up, once.
use crate::api::{self, ApiError, AuditMeta, AuditRecord};
use crate::session::User;
use crate::text::{self, trim};
use vstd::prelude::*;

verus! {

/// The answer to the question whether the server was set up.
#[derive(Debug)]
pub struct SetupStatusResponse {
    pub initialized: bool,
}

/// A request to set up the first administrator.
#[derive(Debug)]
pub struct SetupRequest {
    pub username: String,
    pub password: String,
    pub email: Option<String>,
}

/// The server was set up once there is a user.
pub fn setup_status(users: i64) -> (r: SetupStatusResponse)
    ensures
        r.initialized == (users > 0),
{
    SetupStatusResponse { initialized: users > 0 }
}

/// What a request to set up the first administrator is refused with, where `users` is the number
/// of users. A password counts by its bytes.
pub open spec fn setup_fault(users: i64, r: SetupRequest) -> Option<api::ErrorView> {
    if users > 0 {
        Some(api::error(409, "SETUP_ALREADY_DONE"@, "initial admin already exists"@))
    } else if text::trimmed(r.username@).len() == 0 {
        Some(api::error(422, "INVALID_USERNAME"@, "username must not be empty"@))
    } else if vstd::utf8::encode_utf8(r.password@).len() < 8 {
        Some(api::error(422, "WEAK_PASSWORD"@, "password must be at least 8 characters"@))
    } else {
        None
    }
}

/// The first administrator, who may be stored. The password has to be hashed first.
#[derive(Debug)]
pub struct NewAdmin {
    username: String,
    password: String,
    email: Option<String>,
}

/// The first administrator, once stored. The role has to be assigned and the record written
/// before the administrator is logged in.
#[derive(Debug)]
pub struct StoredAdmin {
    pub user: User,
    pub audit: AuditRecord,
}

impl NewAdmin {
    pub closed spec fn username(self) -> String {
        self.username
    }

    pub closed spec fn password(self) -> String {
        self.password
    }

    pub closed spec fn email(self) -> Option<String> {
        self.email
    }

    /// Checks a request, where `users` is the number of users there are.
    pub fn begin(users: i64, body: SetupRequest) -> (r: Result<NewAdmin, ApiError>)
        ensures
            match r {
                Ok(a) => setup_fault(users, body) is None && a.username()@ == text::trimmed(
                    body.username@,
                ) && a.password() == body.password && a.email() == body.email,
                Err(e) => setup_fault(users, body) == Some(e@),
            },
    {
        if users > 0 {
            return Err(ApiError::conflict("SETUP_ALREADY_DONE", "initial admin already exists"));
        }
        let username = trim(body.username.as_str());
        if username.as_str().is_empty() {
            return Err(ApiError::unprocessable("INVALID_USERNAME", "username must not be empty"));
        }
        if body.password.as_str().as_bytes().len() < 8 {
            return Err(
                ApiError::unprocessable(
                    "WEAK_PASSWORD",
                    "password must be at least 8 characters",
                ),
            );
        }
        Ok(NewAdmin { username, password: body.password, email: body.email })
    }

    /// The user name to be stored.
    pub fn stored_username(&self) -> (s: &str)
        ensures
            s@ == self.username()@,
    {
        self.username.as_str()
    }

    /// The password to be hashed.
    pub fn plain_password(&self) -> (s: &str)
        ensures
            s@ == self.password()@,
    {
        self.password.as_str()
    }

    /// The mail address to be stored.
    pub fn stored_email(&self) -> (s: Option<&str>)
        ensures
            crate::api::auth::str_view(s) == text::opt_view(self.email()),
    {
        match &self.email {
            Some(e) => Some(e.as_str()),
            None => None,
        }
    }

    /// The administrator under the id that the user was stored with.
    pub fn stored(self, id: String) -> (r: StoredAdmin)
        ensures
            r.user.id == id,
            r.user.username == self.username(),
            r.user.email == self.email(),
            r.user.role@ == "admin"@,
            r.audit.says(None, "user.create"@, "user"@, id, AuditMeta::Setup),
    {
        StoredAdmin {
            user: User {
                id: id.clone(),
                username: self.username,
                email: self.email,
                role: "admin".to_owned(),
            },
            audit: AuditRecord {
                user_id: None,
                action: "user.create",
                resource_type: "user",
                resource_id: id,
                metadata: AuditMeta::Setup,
            },
        }
    }
}

/// The role of administrators, which has to be there.
pub fn admin_role(role_id: Option<String>) -> (r: Result<String, ApiError>)
    ensures
        match role_id {
            Some(id) => r == Ok::<String, ApiError>(id),
            None => r matches Err(e) && e@ == api::internal_spec(
                "admin role missing (migration 0003 not applied)"@,
            ),
        },
{
    match role_id {
        Some(id) => Ok(id),
        None => Err(ApiError::internal("admin role missing (migration 0003 not applied)")),
    }
}

/// Once there is a user, no request sets up another administrator, whatever it holds.
pub proof fn setup_locks_itself(users: i64, r: SetupRequest)
    requires
        users > 0,
    ensures
        setup_fault(users, r) == Some(
            api::error(409, "SETUP_ALREADY_DONE"@, "initial admin already exists"@),
        ),
{
}

/// The first administrator is set up exactly where there is no user yet, the name is not empty but
/// for white space, and the password has at least eight bytes.
pub proof fn who_may_set_up(users: i64, r: SetupRequest)
    ensures
        setup_fault(users, r) is None <==> users <= 0 && text::trimmed(r.username@).len() > 0
            && vstd::utf8::encode_utf8(r.password@).len() >= 8,
        users > 0 ==> setup_fault(users, r) is Some && setup_fault(users, r)->0.status == 409,
        users <= 0 && setup_fault(users, r) is Some ==> setup_fault(users, r)->0.status == 422,
        users <= 0 && text::trimmed(r.username@).len() == 0 ==> setup_fault(users, r)->0.code
            == "INVALID_USERNAME"@,
        users <= 0 && text::trimmed(r.username@).len() > 0 && vstd::utf8::encode_utf8(
            r.password@,
        ).len() < 8 ==> setup_fault(users, r)->0.code == "WEAK_PASSWORD"@,
        users > 0 ==> setup_fault(users, r)->0.code == "SETUP_ALREADY_DONE"@
            && setup_fault(users, r)->0.message == "initial admin already exists"@,
        users <= 0 && text::trimmed(r.username@).len() == 0 ==> setup_fault(users, r)->0.message
            == "username must not be empty"@,
        users <= 0 && text::trimmed(r.username@).len() > 0 && vstd::utf8::encode_utf8(
            r.password@,
        ).len() < 8 ==> setup_fault(users, r)->0.message
            == "password must be at least 8 characters"@,
{
}

} // verus!
