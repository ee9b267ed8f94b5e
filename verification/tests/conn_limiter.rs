//! Limits on open connections.
use tunnel_server::conn_limiter::ConnLimiter;
use tunnel_server::ids::RouteId;

fn id(n: u128) -> RouteId {
    RouteId::from_u128(n)
}

#[test]
fn acquire_respects_max_and_releases_on_drop() {
    let mut limiter = ConnLimiter::new();
    let g1 = limiter.try_acquire(id(1), 2).unwrap();
    assert_eq!(limiter.active(id(1)), 1);
    let g2 = limiter.try_acquire(id(1), 2).unwrap();
    assert_eq!(limiter.active(id(1)), 2);
    assert!(limiter.try_acquire(id(1), 2).is_none());
    assert_eq!(limiter.active(id(1)), 2);

    limiter.release(g1);
    assert_eq!(limiter.active(id(1)), 1);
    let g3 = limiter.try_acquire(id(1), 2).unwrap();
    assert_eq!(limiter.active(id(1)), 2);

    limiter.release(g2);
    limiter.release(g3);
    assert_eq!(limiter.active(id(1)), 0);
}

#[test]
fn routes_are_counted_independently() {
    let mut limiter = ConnLimiter::new();
    let _a = limiter.try_acquire(id(1), 1).unwrap();
    let _b = limiter.try_acquire(id(2), 1).unwrap();
    assert_eq!(limiter.active(id(1)), 1);
    assert_eq!(limiter.active(id(2)), 1);
}

#[test]
fn zero_max_rejects_all() {
    let mut limiter = ConnLimiter::new();
    assert!(limiter.try_acquire(id(1), 0).is_none());
    assert_eq!(limiter.active(id(1)), 0);
}

#[test]
fn refused_connection_leaves_the_count() {
    let mut limiter = ConnLimiter::new();
    let held = limiter.try_acquire(id(9), 1).unwrap();
    for _ in 0..3 {
        assert!(limiter.try_acquire(id(9), 1).is_none());
    }
    assert_eq!(limiter.active(id(9)), 1);
    limiter.release(held);
    assert_eq!(limiter.active(id(9)), 0);
}
