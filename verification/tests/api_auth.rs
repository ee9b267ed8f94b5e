//! Logging in, out and on; setting up; enrolling.
use tunnel_server::api::auth::{
    bearer_token, clear_cookie, cookie_value, current_user, log_in, logout, refresh, require_user,
    session_cookie, LoginAttempt, LoginGrant, Refusal, UserRow, SESSION_COOKIE,
};
use tunnel_server::api::enroll::{EnrollRequest, EnrollWrite, Enrollment};
use tunnel_server::api::nodes::{CredentialRow, NodeRow};
use tunnel_server::api::setup::{admin_role, setup_status, NewAdmin, SetupRequest};
use tunnel_server::api::{ApiError, AuditMeta};
use tunnel_server::login_limiter::LoginLimiter;
use tunnel_server::session::SessionStore;

fn text(s: &str) -> String {
    s.to_string()
}

fn admin() -> UserRow {
    UserRow {
        id: text("u1"),
        username: text("admin"),
        email: None,
        password_hash: text("hash-of-hunter2"),
        disabled: false,
    }
}

enum Outcome {
    In(LoginGrant),
    Locked(ApiError),
    Out(Refusal),
}

/// A whole login as the only known user, `admin` with the password `hunter2`.
fn login(
    limiter: &mut LoginLimiter,
    sessions: &mut SessionStore,
    username: &str,
    password: &str,
    now: u64,
) -> Outcome {
    let attempt = match LoginAttempt::begin(limiter, text(username), now) {
        Ok(a) => a,
        Err(e) => return Outcome::Locked(e),
    };
    let row = if username == "admin" { Some(admin()) } else { None };
    let candidate = match attempt.user_found(limiter, row, now) {
        Ok(c) => c,
        Err(r) => return Outcome::Out(r),
    };
    let ok = candidate.password_hash() == format!("hash-of-{password}");
    let verified = match candidate.password_checked(limiter, ok, now) {
        Ok(v) => v,
        Err(r) => return Outcome::Out(r),
    };
    assert_eq!(verified.user_id(), "u1");
    Outcome::In(verified.open_session(
        sessions,
        vec![text("admin"), text("viewer")],
        text("session-1"),
        text("token-1"),
        now as i64,
    ))
}

#[test]
fn login_success_sets_cookie_and_me_returns_user() {
    let (mut limiter, mut sessions) = (LoginLimiter::default(), SessionStore::new());
    let grant = match login(&mut limiter, &mut sessions, "admin", "hunter2", 1000) {
        Outcome::In(g) => g,
        _ => panic!("the password is right"),
    };
    assert_eq!(grant.granted.response.user.username, "admin");
    assert_eq!(grant.granted.response.user.role, "admin");
    assert_eq!(grant.granted.response.token_type, "Bearer");
    assert_eq!(grant.granted.response.access_token, "token-1");
    assert!(grant.granted.cookie.contains("HttpOnly"));
    assert!(grant.granted.cookie.contains("Secure"));
    assert!(grant.granted.cookie.contains("SameSite=Strict"));
    assert_eq!(grant.audit.action, "login");
    assert_eq!(grant.audit.user_id.as_deref(), Some("u1"));
    assert_eq!(grant.audit.resource_type, "user");

    let sent = format!("theme=dark; {}", grant.granted.cookie.split(';').next().unwrap());
    let sid = cookie_value(Some(&sent), SESSION_COOKIE).unwrap();
    let me = require_user(&mut sessions, None, Some(&sid), 1001).ok().unwrap();
    assert_eq!(me.0.username, "admin");
    let me = current_user(&mut sessions, Some("token-1"), None, 1001).unwrap();
    assert_eq!(me.username, "admin");
}

#[test]
fn login_wrong_password_is_401() {
    let (mut limiter, mut sessions) = (LoginLimiter::default(), SessionStore::new());
    match login(&mut limiter, &mut sessions, "admin", "wrong", 1000) {
        Outcome::Out(r) => {
            assert_eq!(r.error.status, 401);
            assert_eq!(r.error.code, "UNAUTHORIZED");
            assert_eq!(r.audit.action, "login.failed");
            assert_eq!(r.audit.resource_id, "u1");
        }
        _ => panic!("the password is wrong"),
    }
}

#[test]
fn unknown_user_is_401() {
    let (mut limiter, mut sessions) = (LoginLimiter::default(), SessionStore::new());
    match login(&mut limiter, &mut sessions, "ghost", "hunter2", 1000) {
        Outcome::Out(r) => {
            assert_eq!(r.error.status, 401);
            assert_eq!(r.error.message, "invalid username or password");
            assert_eq!(r.audit.user_id, None);
            assert_eq!(r.audit.resource_id, "ghost");
            assert!(matches!(r.audit.metadata, AuditMeta::Username { username } if username == "ghost"));
        }
        _ => panic!("nobody has that name"),
    }
}

#[test]
fn disabled_user_is_401() {
    let mut limiter = LoginLimiter::default();
    let attempt = LoginAttempt::begin(&mut limiter, text("admin"), 5).unwrap();
    let row = UserRow { disabled: true, ..admin() };
    let refusal = attempt.user_found(&mut limiter, Some(row), 5).unwrap_err();
    assert_eq!(refusal.error.status, 401);
}

#[test]
fn login_lockout_returns_429_after_max_failures() {
    let (mut limiter, mut sessions) = (LoginLimiter::new(3, 300), SessionStore::new());
    for _ in 0..3 {
        assert!(matches!(
            login(&mut limiter, &mut sessions, "admin", "wrong", 1000),
            Outcome::Out(_)
        ));
    }
    match login(&mut limiter, &mut sessions, "admin", "hunter2", 1000) {
        Outcome::Locked(e) => {
            assert_eq!(e.status, 429);
            assert_eq!(e.code, "LOGIN_LOCKED");
        }
        _ => panic!("the name is locked"),
    }
    assert!(matches!(
        login(&mut limiter, &mut sessions, "admin", "hunter2", 1400),
        Outcome::In(_)
    ));
}

#[test]
fn successful_login_resets_failure_count() {
    let (mut limiter, mut sessions) = (LoginLimiter::new(2, 300), SessionStore::new());
    for _ in 0..3 {
        assert!(matches!(
            login(&mut limiter, &mut sessions, "admin", "wrong", 1000),
            Outcome::Out(_)
        ));
        assert!(matches!(
            login(&mut limiter, &mut sessions, "admin", "hunter2", 1000),
            Outcome::In(_)
        ));
    }
}

#[test]
fn me_without_auth_is_401() {
    let mut sessions = SessionStore::new();
    let e = require_user(&mut sessions, None, None, 0).err().unwrap();
    assert_eq!(e.status, 401);
    assert_eq!(e.code, "UNAUTHORIZED");
    assert_eq!(e.message, "not authenticated");
}

#[test]
fn logout_revokes_session() {
    let (mut limiter, mut sessions) = (LoginLimiter::default(), SessionStore::new());
    login(&mut limiter, &mut sessions, "admin", "hunter2", 1000);
    assert!(current_user(&mut sessions, None, Some("session-1"), 1001).is_some());
    let audit = logout(&mut sessions, Some("session-1"), 1002).unwrap();
    assert_eq!(audit.action, "logout");
    assert!(current_user(&mut sessions, Some("token-1"), Some("session-1"), 1003).is_none());
    assert!(logout(&mut sessions, Some("session-1"), 1004).is_none());
    assert!(logout(&mut sessions, None, 1004).is_none());
}

#[test]
fn login_logout_and_failure_write_audit_entries() {
    let (mut limiter, mut sessions) = (LoginLimiter::default(), SessionStore::new());
    let mut records = vec![];
    match login(&mut limiter, &mut sessions, "admin", "hunter2", 1000) {
        Outcome::In(g) => records.push(g.audit),
        _ => panic!("the password is right"),
    }
    match login(&mut limiter, &mut sessions, "admin", "wrong", 1000) {
        Outcome::Out(r) => records.push(r.audit),
        _ => panic!("the password is wrong"),
    }
    records.push(logout(&mut sessions, Some("session-1"), 1002).unwrap());
    let actions: Vec<&str> = records.iter().map(|r| r.action).collect();
    assert_eq!(actions, ["login", "login.failed", "logout"]);
    assert_eq!(records[0].user_id.as_deref(), Some("u1"));
    assert_eq!(records[0].resource_type, "user");
}

#[test]
fn refresh_issues_new_access_token() {
    let (mut limiter, mut sessions) = (LoginLimiter::default(), SessionStore::new());
    login(&mut limiter, &mut sessions, "admin", "hunter2", 1000);
    let r = refresh(&mut sessions, Some("session-1"), text("token-2"), 1500).unwrap();
    assert_eq!(r.access_token, "token-2");
    assert_eq!(r.token_type, "Bearer");
    assert!(current_user(&mut sessions, Some("token-2"), None, 2399).is_some());
    assert!(current_user(&mut sessions, Some("token-1"), None, 2399).is_none());

    let e = refresh(&mut sessions, None, text("t"), 1500).unwrap_err();
    assert_eq!(e.message, "not authenticated");
    let e = refresh(&mut sessions, Some("nobody"), text("t"), 1500).unwrap_err();
    assert_eq!(e.message, "session expired");
}

#[test]
fn bad_token_falls_back_to_the_cookie() {
    let (mut limiter, mut sessions) = (LoginLimiter::default(), SessionStore::new());
    login(&mut limiter, &mut sessions, "admin", "hunter2", 1000);
    assert!(current_user(&mut sessions, Some("bad"), Some("session-1"), 1001).is_some());
    assert!(current_user(&mut sessions, Some("bad"), None, 1001).is_none());
}

#[test]
fn headers_are_read() {
    assert_eq!(cookie_value(Some("a=1; sid=xyz; b=2"), "sid").as_deref(), Some("xyz"));
    assert_eq!(cookie_value(Some("sid=a=b"), "sid").as_deref(), Some("a=b"));
    assert_eq!(cookie_value(Some("xsid=1;sid"), "sid"), None);
    assert_eq!(cookie_value(None, "sid"), None);
    assert_eq!(bearer_token(Some("Bearer  abc ")).as_deref(), Some("abc"));
    assert_eq!(bearer_token(Some("bearer abc")), None);
    assert_eq!(bearer_token(Some("Basic abc")), None);
    assert_eq!(bearer_token(None), None);
}

#[test]
fn cookies_are_written() {
    assert_eq!(
        session_cookie("abc"),
        "sid=abc; HttpOnly; Secure; SameSite=Strict; Path=/; Max-Age=604800"
    );
    assert_eq!(clear_cookie(), "sid=; HttpOnly; Secure; SameSite=Strict; Path=/; Max-Age=0");
}

fn request(username: &str, password: &str) -> SetupRequest {
    SetupRequest { username: text(username), password: text(password), email: None }
}

#[test]
fn setup_status_reports_uninitialized_on_empty_db() {
    assert!(!setup_status(0).initialized);
    assert!(setup_status(1).initialized);
}

#[test]
fn setup_creates_admin_and_returns_session() {
    let body = SetupRequest {
        username: text(" admin "),
        password: text("correct-horse-battery"),
        email: Some(text("admin@example.com")),
    };
    let new = NewAdmin::begin(0, body).unwrap();
    assert_eq!(new.stored_username(), "admin");
    assert_eq!(new.plain_password(), "correct-horse-battery");
    assert_eq!(new.stored_email(), Some("admin@example.com"));
    let stored = new.stored(text("id-1"));
    assert_eq!(stored.audit.action, "user.create");
    assert!(matches!(stored.audit.metadata, AuditMeta::Setup));
    let mut sessions = SessionStore::new();
    let granted = log_in(&mut sessions, stored.user, text("s"), text("t"), 0);
    assert_eq!(granted.response.user.role, "admin");
    assert_eq!(granted.response.access_token, "t");
    assert_eq!(granted.cookie, session_cookie("s"));
    assert_eq!(current_user(&mut sessions, Some("t"), None, 1).unwrap().id, "id-1");
}

#[test]
fn setup_then_login_succeeds() {
    let new = NewAdmin::begin(0, request("root", "supersecret")).unwrap();
    let stored = new.stored(text("id-1"));
    let row = UserRow {
        id: stored.user.id.clone(),
        username: stored.user.username.clone(),
        email: stored.user.email.clone(),
        password_hash: text("hash-of-supersecret"),
        disabled: false,
    };
    let (mut limiter, mut sessions) = (LoginLimiter::default(), SessionStore::new());
    let attempt = LoginAttempt::begin(&mut limiter, text("root"), 5).unwrap();
    let candidate = attempt.user_found(&mut limiter, Some(row), 5).unwrap();
    let verified = candidate.password_checked(&mut limiter, true, 5).unwrap();
    let roles = vec![stored.user.role];
    let grant = verified.open_session(&mut sessions, roles, text("s"), text("t"), 5);
    assert_eq!(grant.granted.response.user.role, "admin");
}

#[test]
fn setup_rejected_after_initialized() {
    let e = NewAdmin::begin(1, request("second", "supersecret2")).unwrap_err();
    assert_eq!(e.status, 409);
    assert_eq!(e.code, "SETUP_ALREADY_DONE");
}

#[test]
fn setup_rejects_weak_password() {
    let e = NewAdmin::begin(0, request("admin", "short")).unwrap_err();
    assert_eq!(e.status, 422);
    assert_eq!(e.code, "WEAK_PASSWORD");
    assert!(NewAdmin::begin(0, request("admin", "12345678")).is_ok());
}

#[test]
fn setup_needs_a_name_and_a_role() {
    let e = NewAdmin::begin(0, request("  ", "supersecret")).unwrap_err();
    assert_eq!(e.code, "INVALID_USERNAME");
    assert_eq!(admin_role(Some(text("r"))).unwrap(), "r");
    assert_eq!(admin_role(None).unwrap_err().status, 500);
}

fn enroll_request(token: &str, node_name: Option<&str>) -> EnrollRequest {
    EnrollRequest {
        bootstrap_token: text(token),
        node_name: node_name.map(str::to_string),
        hostname: Some(text("nas")),
        platform: None,
        architecture: None,
        agent_version: None,
    }
}

fn credential(revoked: bool) -> CredentialRow {
    CredentialRow {
        id: text("c1"),
        node_id: text("n1"),
        expires_at: None,
        revoked_at: if revoked { Some(text("then")) } else { None },
    }
}

fn node(name: &str) -> NodeRow {
    NodeRow {
        id: text("n1"),
        name: text(name),
        description: None,
        status: text("pending"),
        hostname: None,
        platform: None,
        architecture: None,
        agent_version: None,
        remote_addr: None,
        connected_at: None,
        last_seen_at: None,
        config_version: 3,
        applied_config_version: 0,
        config_status: text("pending"),
    }
}

#[test]
fn enroll_exchanges_bootstrap_for_runtime_token_once() {
    let e = Enrollment::begin(enroll_request(" abc ", Some("home"))).unwrap();
    assert_eq!(e.token_text(), "abc");
    let claim = e.credential_found(Some(credential(false))).unwrap();
    assert_eq!(claim.node_id(), "n1");
    let plan = claim.node_found(Some(node("home")), text("c2"), text("runtime")).unwrap();
    assert_eq!(plan.response.node_id, "n1");
    assert_eq!(plan.response.credential, "runtime");
    assert_eq!(plan.response.config_version, 3);
    assert!(matches!(&plan.writes[0], EnrollWrite::Revoke(id) if id == "c1"));
    assert!(matches!(&plan.writes[1], EnrollWrite::SetMeta(id, m)
        if id == "n1" && m.hostname.as_deref() == Some("nas")));
    assert!(matches!(&plan.writes[2], EnrollWrite::Create(c)
        if c.id == "c2" && c.credential_type == "token" && c.token == "runtime"));
    assert_eq!(plan.writes.len(), 5);

    let again = Enrollment::begin(enroll_request("abc", None)).unwrap();
    let e = again.credential_found(Some(credential(true))).unwrap_err();
    assert_eq!(e.status, 401);
    assert_eq!(e.message, "bootstrap token already used or revoked");
}

#[test]
fn enroll_rejects_unknown_bootstrap_token() {
    let e = Enrollment::begin(enroll_request("deadbeef", None)).unwrap();
    let e = e.credential_found(None).unwrap_err();
    assert_eq!(e.status, 401);
    assert_eq!(e.code, "UNAUTHORIZED");
}

#[test]
fn enroll_rejects_node_name_mismatch() {
    let e = Enrollment::begin(enroll_request("abc", Some("other"))).unwrap();
    let claim = e.credential_found(Some(credential(false))).unwrap();
    let e = claim.node_found(Some(node("home")), text("c2"), text("runtime")).unwrap_err();
    assert_eq!(e.status, 422);
    assert_eq!(e.code, "NODE_NAME_MISMATCH");
}

#[test]
fn enroll_needs_a_token_and_a_node() {
    let e = Enrollment::begin(enroll_request(" ", None)).unwrap_err();
    assert_eq!(e.code, "INVALID_TOKEN");
    let e = Enrollment::begin(enroll_request("abc", Some(" "))).unwrap();
    let claim = e.credential_found(Some(credential(false))).unwrap();
    let e = claim.node_found(None, text("c2"), text("runtime")).unwrap_err();
    assert_eq!(e.status, 500);
}
