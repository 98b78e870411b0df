use dataset_engine::rate_limiter::{PermitDecision, SimpleRateLimiter, POLL_INTERVAL_MS};

#[test]
fn interval_is_a_thousand_over_the_rate() {
    assert_eq!(SimpleRateLimiter::new(10).min_interval(), 100);
    assert_eq!(SimpleRateLimiter::new(60).min_interval(), 16);
    assert_eq!(SimpleRateLimiter::new(1).min_interval(), 1000);
    assert_eq!(SimpleRateLimiter::new(3).min_interval(), 333);
    assert_eq!(SimpleRateLimiter::new(1000).min_interval(), 1);
    assert_eq!(SimpleRateLimiter::new(1001).min_interval(), 0);
}

#[test]
fn first_request_is_granted_at_once() {
    let mut limiter = SimpleRateLimiter::new(10);
    assert_eq!(limiter.last_request(), None);
    assert!(limiter.is_ready(0));
    assert!(limiter.try_acquire(0));
    assert_eq!(limiter.last_request(), Some(0));
}

#[test]
fn grants_are_spaced_by_the_interval() {
    let mut limiter = SimpleRateLimiter::new(10);
    assert!(limiter.try_acquire(5));
    assert!(!limiter.try_acquire(5));
    assert!(!limiter.try_acquire(50));
    assert!(!limiter.try_acquire(104));
    assert_eq!(limiter.last_request(), Some(5));
    assert!(limiter.try_acquire(105));
    assert_eq!(limiter.last_request(), Some(105));
    assert!(!limiter.try_acquire(204));
    assert!(limiter.try_acquire(300));
}

#[test]
fn consecutive_grants_on_a_polled_clock_keep_their_distance() {
    let mut limiter = SimpleRateLimiter::new(7);
    let interval = limiter.min_interval();
    assert_eq!(interval, 142);
    let mut granted: Vec<u64> = Vec::new();
    let mut now: u64 = 0;
    while now < 2000 {
        if limiter.try_acquire(now) {
            granted.push(now);
        }
        now += POLL_INTERVAL_MS;
    }
    assert!(granted.len() > 5);
    let mut k: usize = 1;
    while k < granted.len() {
        assert!(granted[k] - granted[k - 1] >= interval);
        k += 1;
    }
}

#[test]
fn clock_that_runs_backwards_grants_nothing() {
    let mut limiter = SimpleRateLimiter::new(10);
    assert!(limiter.try_acquire(1000));
    assert!(!limiter.try_acquire(10));
    assert_eq!(limiter.last_request(), Some(1000));
}

#[test]
fn zero_interval_grants_every_request() {
    let mut limiter = SimpleRateLimiter::new(5000);
    assert!(limiter.try_acquire(7));
    assert!(limiter.try_acquire(7));
    assert!(limiter.try_acquire(7));
}

#[test]
fn poll_grants_waits_or_gives_way_to_cancellation() {
    let mut limiter = SimpleRateLimiter::new(10);
    assert_eq!(limiter.poll(0, false), PermitDecision::Granted);
    assert_eq!(limiter.poll(30, false), PermitDecision::Wait { ms: 10 });
    assert_eq!(POLL_INTERVAL_MS, 10);
    assert_eq!(limiter.poll(500, true), PermitDecision::Cancelled);
    assert_eq!(limiter.last_request(), Some(0));
    assert_eq!(limiter.poll(500, false), PermitDecision::Granted);
    assert_eq!(limiter.last_request(), Some(500));
}
