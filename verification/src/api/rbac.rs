//! Which role may do what.
use crate::api::ApiError;
use crate::api;
use crate::session::User;
use crate::text::{concat, push_str, str_eq};
use vstd::prelude::*;

verus! {

/// Something that a user may be allowed to do.
#[derive(Clone, Copy, PartialEq, Eq, Structural, Debug, Hash)]
pub enum Permission {
    NodesRead,
    NodesWrite,
    RoutesRead,
    RoutesWrite,
    UsersRead,
    UsersWrite,
    LogsRead,
    AuditRead,
    SettingsRead,
    SettingsWrite,
}

/// The stable name of a permission.
pub open spec fn code_of(p: Permission) -> Seq<char> {
    match p {
        Permission::NodesRead => "nodes.read"@,
        Permission::NodesWrite => "nodes.write"@,
        Permission::RoutesRead => "routes.read"@,
        Permission::RoutesWrite => "routes.write"@,
        Permission::UsersRead => "users.read"@,
        Permission::UsersWrite => "users.write"@,
        Permission::LogsRead => "logs.read"@,
        Permission::AuditRead => "audit.read"@,
        Permission::SettingsRead => "settings.read"@,
        Permission::SettingsWrite => "settings.write"@,
    }
}

/// The permission is one to look, not to change.
pub open spec fn read_only(p: Permission) -> bool {
    match p {
        Permission::NodesRead => true,
        Permission::RoutesRead => true,
        Permission::UsersRead => true,
        Permission::LogsRead => true,
        Permission::AuditRead => true,
        Permission::SettingsRead => true,
        _ => false,
    }
}

/// A role grants a permission: an admin may do everything, an operator may read and write nodes
/// and routes, a viewer may read everything, and nobody else may do anything.
pub open spec fn grants(role: Seq<char>, p: Permission) -> bool {
    if role == "admin"@ {
        true
    } else if role == "operator"@ {
        p == Permission::NodesRead || p == Permission::NodesWrite || p == Permission::RoutesRead
            || p == Permission::RoutesWrite
    } else if role == "viewer"@ {
        read_only(p)
    } else {
        false
    }
}

/// The error for a user without a permission.
pub open spec fn lacking(p: Permission) -> api::ErrorView {
    api::forbidden_spec("permission '"@ + code_of(p) + "' required"@)
}

impl Permission {
    /// The stable name of the permission.
    pub fn code(self) -> (s: &'static str)
        ensures
            s@ == code_of(self),
    {
        match self {
            Permission::NodesRead => "nodes.read",
            Permission::NodesWrite => "nodes.write",
            Permission::RoutesRead => "routes.read",
            Permission::RoutesWrite => "routes.write",
            Permission::UsersRead => "users.read",
            Permission::UsersWrite => "users.write",
            Permission::LogsRead => "logs.read",
            Permission::AuditRead => "audit.read",
            Permission::SettingsRead => "settings.read",
            Permission::SettingsWrite => "settings.write",
        }
    }

    /// Whether the permission is one to look, not to change.
    pub fn is_read(self) -> (r: bool)
        ensures
            r == read_only(self),
    {
        match self {
            Permission::NodesRead => true,
            Permission::RoutesRead => true,
            Permission::UsersRead => true,
            Permission::LogsRead => true,
            Permission::AuditRead => true,
            Permission::SettingsRead => true,
            _ => false,
        }
    }
}

/// Whether a role grants a permission.
pub fn role_has_permission(role: &str, perm: Permission) -> (r: bool)
    ensures
        r == grants(role@, perm),
{
    if str_eq(role, "admin") {
        true
    } else if str_eq(role, "operator") {
        match perm {
            Permission::NodesRead => true,
            Permission::NodesWrite => true,
            Permission::RoutesRead => true,
            Permission::RoutesWrite => true,
            _ => false,
        }
    } else if str_eq(role, "viewer") {
        perm.is_read()
    } else {
        false
    }
}

/// Whether a user has a permission, by the role of the session.
pub fn user_has_permission(user: &User, perm: Permission) -> (r: bool)
    ensures
        r == grants(user.role@, perm),
{
    role_has_permission(user.role.as_str(), perm)
}

/// Refuses a user without a permission.
pub fn require_permission(user: &User, perm: Permission) -> (r: Result<(), ApiError>)
    ensures
        match r {
            Ok(_) => grants(user.role@, perm),
            Err(e) => !grants(user.role@, perm) && e@ == lacking(perm),
        },
{
    if user_has_permission(user, perm) {
        Ok(())
    } else {
        let mut message = concat("permission '", perm.code());
        push_str(&mut message, "' required");
        Err(ApiError::forbidden(message.as_str()))
    }
}

/// What a viewer may do, an admin may do too; what an operator may do, an admin may do too; and a
/// viewer may change nothing.
pub proof fn roles_are_ordered(p: Permission)
    ensures
        grants("viewer"@, p) ==> grants("admin"@, p),
        grants("operator"@, p) ==> grants("admin"@, p),
        grants("viewer"@, p) ==> read_only(p),
{
    reveal_strlit("viewer");
    reveal_strlit("admin");
    reveal_strlit("operator");
    assert("viewer"@.len() == 6 && "admin"@.len() == 5 && "operator"@.len() == 8);
}

/// An administrator may do everything. An operator may read and write nodes and routes, and
/// nothing else. A viewer may read everything and change nothing. Anyone else may do nothing.
pub proof fn who_may_do_what(role: Seq<char>, p: Permission)
    ensures
        grants("admin"@, p),
        grants("operator"@, p) <==> p is NodesRead || p is NodesWrite || p is RoutesRead || p
            is RoutesWrite,
        grants("viewer"@, p) <==> !(p is NodesWrite || p is RoutesWrite || p is UsersWrite || p
            is SettingsWrite),
        role != "admin"@ && role != "operator"@ && role != "viewer"@ ==> !grants(role, p),
{
    reveal_strlit("viewer");
    reveal_strlit("admin");
    reveal_strlit("operator");
    assert("viewer"@.len() == 6 && "admin"@.len() == 5 && "operator"@.len() == 8);
}

/// A permission is one to look exactly where its name ends in `.read`, and one to change exactly
/// where it ends in `.write`.
pub proof fn names_tell_what_is_read(p: Permission)
    ensures
        code_of(p).len() > 6,
        read_only(p) <==> code_of(p).subrange(code_of(p).len() - 5, code_of(p).len() as int)
            == ".read"@,
        !read_only(p) <==> code_of(p).subrange(code_of(p).len() - 6, code_of(p).len() as int)
            == ".write"@,
{
    reveal_strlit(".read");
    reveal_strlit(".write");
    reveal_strlit("nodes.read");
    reveal_strlit("nodes.write");
    reveal_strlit("routes.read");
    reveal_strlit("routes.write");
    reveal_strlit("users.read");
    reveal_strlit("users.write");
    reveal_strlit("logs.read");
    reveal_strlit("audit.read");
    reveal_strlit("settings.read");
    reveal_strlit("settings.write");
    let c = code_of(p);
    let five = c.subrange(c.len() - 5, c.len() as int);
    let six = c.subrange(c.len() - 6, c.len() as int);
    if read_only(p) {
        assert(five =~= ".read"@);
        assert(six[1] != ".write"@[1]);
    } else {
        assert(six =~= ".write"@);
        assert(five[0] != ".read"@[0]);
    }
}

/// No two permissions have the same name.
pub proof fn names_tell_permissions_apart(p: Permission, q: Permission)
    requires
        code_of(p) == code_of(q),
    ensures
        p == q,
{
    reveal_strlit("nodes.read");
    reveal_strlit("nodes.write");
    reveal_strlit("routes.read");
    reveal_strlit("routes.write");
    reveal_strlit("users.read");
    reveal_strlit("users.write");
    reveal_strlit("logs.read");
    reveal_strlit("audit.read");
    reveal_strlit("settings.read");
    reveal_strlit("settings.write");
    let a = code_of(p);
    let b = code_of(q);
    assert(a.len() == b.len());
    assert(a[0] == b[0] && a[1] == b[1] && a[5] == b[5] && a[6] == b[6]);
}

/// Who lacks a permission is answered with 403 and told its name.
pub proof fn lacking_is_forbidden(p: Permission)
    ensures
        lacking(p).status == 403,
        lacking(p).message == "permission '"@ + code_of(p) + "' required"@,
{
}

} // verus!
