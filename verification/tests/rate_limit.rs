use gitcooked::rate_limiter::{RateLimitError, RateLimiter};

const IP_LOCAL: u128 = 0x7F000001;
const IP_OTHER: u128 = 0x7F000002;

fn wait_of(e: &RateLimitError) -> u64 {
    match e {
        RateLimitError::LimitExceeded { wait_time, .. } => *wait_time,
    }
}

#[test]
fn test_rate_limit_basic() {
    let mut limiter = RateLimiter::new(5, 60);
    let ip: u128 = IP_LOCAL;

    for _ in 0..5 {
        assert!(limiter.check_rate_limit(ip).is_ok());
    }

    assert!(limiter.check_rate_limit(ip).is_err());
}

#[test]
fn test_rate_limit_reset() {
    let mut limiter = RateLimiter::new(2, 1);
    let ip: u128 = IP_LOCAL;

    assert!(limiter.check_at(ip, 0, 0).is_ok());
    assert!(limiter.check_at(ip, 0, 0).is_ok());

    assert!(limiter.check_at(ip, 0, 0).is_err());

    assert!(limiter.check_at(ip, 61, 61).is_ok());
}

#[test]
fn five_sequential_calls_admitted() {
    let mut limiter = RateLimiter::new(5, 1);
    for t in 0..5u64 {
        assert!(limiter.check_at(IP_LOCAL, t, 1000).is_ok());
    }
}

#[test]
fn sixth_call_rejected_with_bounded_wait() {
    let mut limiter = RateLimiter::new(5, 1);
    for t in 0..5u64 {
        assert!(limiter.check_at(IP_LOCAL, t, 1000).is_ok());
    }
    let e = limiter.check_at(IP_LOCAL, 10, 1000).unwrap_err();
    let w = wait_of(&e);
    assert!(w > 0);
    assert!(w <= 60);
    assert_eq!(w, 50);
    assert_eq!(e.retry_after(), 1050);
}

#[test]
fn other_identity_admitted_while_first_throttled() {
    let mut limiter = RateLimiter::new(2, 1);
    assert!(limiter.check_at(IP_LOCAL, 0, 0).is_ok());
    assert!(limiter.check_at(IP_LOCAL, 0, 0).is_ok());
    assert!(limiter.check_at(IP_LOCAL, 0, 0).is_err());
    assert!(limiter.check_at(IP_OTHER, 0, 0).is_ok());
    assert!(limiter.check_at(IP_LOCAL, 0, 0).is_err());
}

#[test]
fn window_boundary_is_sharp() {
    let mut limiter = RateLimiter::new(1, 1);
    assert!(limiter.check_at(IP_LOCAL, 0, 0).is_ok());
    // One second before the boundary the old window still counts.
    assert!(limiter.check_at(IP_LOCAL, 59, 0).is_err());
    // At a full window elapsed a fresh window starts.
    assert!(limiter.check_at(IP_LOCAL, 60, 0).is_ok());
    // The fresh window is full-size: it expires 60 s after its own start.
    assert!(limiter.check_at(IP_LOCAL, 119, 0).is_err());
    assert!(limiter.check_at(IP_LOCAL, 120, 0).is_ok());
}

#[test]
fn reject_leaves_quota_spent() {
    let mut limiter = RateLimiter::new(2, 1);
    assert!(limiter.check_at(IP_LOCAL, 0, 0).is_ok());
    assert!(limiter.check_at(IP_LOCAL, 0, 0).is_ok());
    // Rejected calls do not extend or reset the window.
    for _ in 0..10 {
        assert!(limiter.check_at(IP_LOCAL, 30, 0).is_err());
    }
    assert!(limiter.check_at(IP_LOCAL, 60, 0).is_ok());
}

#[test]
fn wait_time_counts_down_with_elapsed_time() {
    let mut limiter = RateLimiter::new(1, 1);
    assert!(limiter.check_at(IP_LOCAL, 100, 0).is_ok());
    let e1 = limiter.check_at(IP_LOCAL, 100, 0).unwrap_err();
    assert_eq!(wait_of(&e1), 60);
    let e2 = limiter.check_at(IP_LOCAL, 130, 0).unwrap_err();
    assert_eq!(wait_of(&e2), 30);
    let e3 = limiter.check_at(IP_LOCAL, 159, 0).unwrap_err();
    assert_eq!(wait_of(&e3), 1);
}

#[test]
fn retry_after_is_wall_clock_plus_wait() {
    let mut limiter = RateLimiter::new(1, 2);
    assert!(limiter.check_at(IP_LOCAL, 0, 500).is_ok());
    let e = limiter.check_at(IP_LOCAL, 40, 700).unwrap_err();
    assert_eq!(wait_of(&e), 80);
    assert_eq!(e.retry_after(), 780);
}

#[test]
fn linearized_burst_admits_exactly_the_remaining_quota() {
    // Eight checks for one identity, all at the same instant: with two of
    // five requests already spent, exactly three more are admitted.
    let mut limiter = RateLimiter::new(5, 1);
    assert!(limiter.check_at(IP_LOCAL, 0, 0).is_ok());
    assert!(limiter.check_at(IP_LOCAL, 0, 0).is_ok());
    let mut admitted = 0;
    for _ in 0..8 {
        if limiter.check_at(IP_LOCAL, 30, 0).is_ok() {
            admitted += 1;
        }
    }
    assert_eq!(admitted, 3);
}

#[test]
fn clock_going_backwards_does_not_reset() {
    let mut limiter = RateLimiter::new(1, 1);
    assert!(limiter.check_at(IP_LOCAL, 50, 0).is_ok());
    // A reading before the window's start counts as no time elapsed.
    let e = limiter.check_at(IP_LOCAL, 10, 0).unwrap_err();
    assert_eq!(wait_of(&e), 60);
}
