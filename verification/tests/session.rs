//! Sessions and access tokens.
use tunnel_server::clock::signed_reading;
use tunnel_server::session::{SessionStore, User, ACCESS_TOKEN_TTL_SECS, SESSION_TTL_SECS};

fn user(name: &str) -> User {
    User {
        id: name.to_string(),
        username: name.to_string(),
        email: None,
        role: "admin".to_string(),
    }
}

fn text(s: &str) -> String {
    s.to_string()
}

#[test]
fn create_issue_and_lookup_roundtrip() {
    let mut store = SessionStore::new();
    let issued = store.create(user("alice"), text("session-1"), text("token-1"));

    let by_session = store.user_by_session(&issued.session_id).unwrap();
    assert_eq!(by_session.username, "alice");

    let by_token = store.user_by_access_token(&issued.access_token).unwrap();
    assert_eq!(by_token.id, "alice");
}

#[test]
fn refresh_issues_new_token() {
    let mut store = SessionStore::new();
    let issued = store.create(user("bob"), text("session-1"), text("token-1"));
    let new_token = store.refresh(&issued.session_id, text("token-2")).unwrap();
    assert_ne!(new_token, issued.access_token);
    assert!(store.user_by_access_token(&new_token).is_some());
}

#[test]
fn revoke_clears_session_and_tokens() {
    let mut store = SessionStore::new();
    let issued = store.create(user("carol"), text("session-1"), text("token-1"));
    store.revoke(&issued.session_id);
    assert!(store.user_by_session(&issued.session_id).is_none());
    assert!(store.user_by_access_token(&issued.access_token).is_none());
}

#[test]
fn unknown_ids_are_none() {
    let mut store = SessionStore::new();
    assert!(store.user_by_session("nope").is_none());
    assert!(store.user_by_access_token("nope").is_none());
    assert!(store.refresh("nope", text("token")).is_none());
}

#[test]
fn lifetimes_are_a_week_and_a_quarter_of_an_hour() {
    assert_eq!(SESSION_TTL_SECS, 604800);
    assert_eq!(ACCESS_TOKEN_TTL_SECS, 900);
    let mut store = SessionStore::new();
    store.create_at(user("dave"), text("s"), text("t"), 1000);
    assert!(store.user_by_access_token_at("t", 1899).is_some());
    assert!(store.user_by_access_token_at("t", 1900).is_none());
    assert!(store.user_by_session_at("s", 605799).is_some());
    assert!(store.user_by_session_at("s", 605800).is_none());
    assert!(store.user_by_session_at("s", 605801).is_none());
}

#[test]
fn revoking_one_session_leaves_another() {
    let mut store = SessionStore::new();
    store.create_at(user("erin"), text("s1"), text("t1"), 0);
    store.create_at(user("frank"), text("s2"), text("t2"), 0);
    store.revoke("s1");
    assert!(store.user_by_access_token_at("t1", 1).is_none());
    assert_eq!(store.user_by_access_token_at("t2", 1).unwrap().username, "frank");
}

#[test]
fn token_dies_with_its_session() {
    let mut store = SessionStore::new();
    store.create_at(user("grace"), text("s"), text("t"), 0);
    let near_end = SESSION_TTL_SECS - 10;
    assert_eq!(store.refresh_at("s", text("t2"), near_end).unwrap(), "t2");
    assert!(store.user_by_access_token_at("t2", near_end + 9).is_some());
    assert!(store.user_by_access_token_at("t2", near_end + 10).is_none());
    assert!(store.refresh_at("s", text("t3"), near_end + 10).is_none());
}

#[test]
fn unreadable_clock_ends_every_session() {
    let mut store = SessionStore::new();
    let broken = signed_reading(None);
    store.create_at(user("alice"), text("s"), text("t"), 1000);
    assert!(store.user_by_session_at("s", 1001).is_some());
    assert!(store.user_by_access_token_at("t", broken).is_none());
    assert!(store.user_by_session_at("s", broken).is_none());

    store.create_at(user("bob"), text("s2"), text("t2"), broken);
    assert!(store.user_by_session_at("s2", 1002).is_none());
    assert!(store.user_by_access_token_at("t2", 1002).is_none());
}
