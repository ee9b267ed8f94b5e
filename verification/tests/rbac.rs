//! Roles and permissions.
use tunnel_server::api::rbac::{
    require_permission, role_has_permission, user_has_permission, Permission,
};
use tunnel_server::session::User;

fn user(role: &str) -> User {
    User {
        id: "1".to_string(),
        username: "u".to_string(),
        email: None,
        role: role.to_string(),
    }
}

#[test]
fn admin_has_everything() {
    for perm in [
        Permission::NodesRead,
        Permission::NodesWrite,
        Permission::RoutesWrite,
        Permission::UsersWrite,
        Permission::SettingsWrite,
    ] {
        assert!(role_has_permission("admin", perm), "{perm:?} for admin");
    }
}

#[test]
fn operator_has_nodes_and_routes_rw() {
    assert!(role_has_permission("operator", Permission::NodesRead));
    assert!(role_has_permission("operator", Permission::NodesWrite));
    assert!(role_has_permission("operator", Permission::RoutesRead));
    assert!(role_has_permission("operator", Permission::RoutesWrite));
    assert!(!role_has_permission("operator", Permission::UsersRead));
    assert!(!role_has_permission("operator", Permission::UsersWrite));
    assert!(!role_has_permission("operator", Permission::SettingsWrite));
}

#[test]
fn rbac_viewer_is_read_only() {
    assert!(role_has_permission("viewer", Permission::NodesRead));
    assert!(role_has_permission("viewer", Permission::RoutesRead));
    assert!(role_has_permission("viewer", Permission::LogsRead));
    assert!(!role_has_permission("viewer", Permission::NodesWrite));
    assert!(!role_has_permission("viewer", Permission::RoutesWrite));
    assert!(!role_has_permission("viewer", Permission::UsersWrite));
}

#[test]
fn unknown_role_has_nothing() {
    assert!(!role_has_permission("user", Permission::NodesRead));
    assert!(!role_has_permission("", Permission::NodesRead));
}

#[test]
fn operators_can_do_no_more_than_admins() {
    for perm in [Permission::NodesRead, Permission::NodesWrite, Permission::RoutesRead] {
        assert!(role_has_permission("operator", perm));
        assert!(role_has_permission("admin", perm));
    }
}

#[test]
fn missing_permission_is_403() {
    assert!(user_has_permission(&user("viewer"), Permission::NodesRead));
    assert!(require_permission(&user("admin"), Permission::SettingsWrite).is_ok());
    let err = require_permission(&user("viewer"), Permission::NodesWrite).unwrap_err();
    assert_eq!(err.status, 403);
    assert_eq!(err.code, "FORBIDDEN");
    assert_eq!(err.message, "permission 'nodes.write' required");
}
