//! Limits on failed logins.
use tunnel_server::login_limiter::LoginLimiter;

#[test]
fn locks_after_max_attempts() {
    let mut limiter = LoginLimiter::new(3, 300);
    assert!(limiter.allows("admin"));
    limiter.record_failure("admin");
    limiter.record_failure("admin");
    assert!(limiter.allows("admin"));
    limiter.record_failure("admin");
    assert!(!limiter.allows("admin"));
}

#[test]
fn success_resets_counter() {
    let mut limiter = LoginLimiter::new(2, 300);
    limiter.record_failure("admin");
    limiter.reset("admin");
    assert!(limiter.allows("admin"));
    limiter.record_failure("admin");
    assert!(limiter.allows("admin"));
}

#[test]
fn usernames_are_counted_independently() {
    let mut limiter = LoginLimiter::new(1, 300);
    limiter.record_failure("admin");
    assert!(!limiter.allows("admin"));
    assert!(limiter.allows("alice"));
}

#[test]
fn default_is_five_attempts() {
    let mut limiter = LoginLimiter::default();
    for _ in 0..5 {
        limiter.record_failure("admin");
    }
    assert!(!limiter.allows("admin"));
}

#[test]
fn default_leaves_four_attempts_open() {
    let mut limiter = LoginLimiter::default();
    for _ in 0..4 {
        limiter.record_failure("admin");
    }
    assert!(limiter.allows("admin"));
}

#[test]
fn lock_lifts_after_the_window() {
    let mut limiter = LoginLimiter::new(2, 300);
    limiter.record_failure_at("admin", 1000);
    limiter.record_failure_at("admin", 1100);
    assert!(!limiter.allows_at("admin", 1200));
    assert!(!limiter.allows_at("admin", 1299));
    assert!(limiter.allows_at("admin", 1400));
}

#[test]
fn forgotten_failures_change_no_answer() {
    let mut asked = LoginLimiter::new(2, 10);
    let mut silent = LoginLimiter::new(2, 10);
    for at in [100, 105, 113] {
        asked.record_failure_at("bob", at);
        asked.allows_at("bob", at);
        silent.record_failure_at("bob", at);
    }
    for at in 113..130 {
        assert_eq!(asked.allows_at("bob", at), silent.allows_at("bob", at));
    }
}
