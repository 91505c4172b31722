use shield_proxy::ratelimit::RateLimiter;

#[test]
fn test_rate_limiter_fixed_window() {
    let max_req = 3;
    let window_sec = 2;
    let mut limiter = RateLimiter::new(true, max_req, window_sec, vec![]);
    let ip = "192.168.1.1";

    // 1. The first three requests pass.
    assert!(limiter.check(ip, 0), "Request 1 should pass");
    assert!(limiter.check(ip, 10), "Request 2 should pass");
    assert!(limiter.check(ip, 20), "Request 3 should pass");

    // 2. The fourth is blocked.
    assert!(!limiter.check(ip, 30), "Request 4 should be blocked");

    // 3. Once the window has lain longer than its duration (2 s),
    //    the next check admits again.
    let after_reset = (window_sec + 1) * 1000;
    assert!(limiter.check(ip, after_reset), "Request 5 should pass after reset");
}

#[test]
fn test_rate_limiter_whitelist() {
    let ip_wl = "10.0.0.5";
    let mut limiter = RateLimiter::new(true, 1, 60, vec![ip_wl.to_string()]);

    // A whitelisted client passes every time, even with a limit of 1.
    assert!(limiter.check(ip_wl, 0), "Whitelisted IP should pass (1)");
    assert!(limiter.check(ip_wl, 0), "Whitelisted IP should pass (2)");
}

#[test]
fn test_rate_limiter_disabled_admits_everything() {
    let mut limiter = RateLimiter::new(false, 1, 60, vec![]);
    for _ in 0..10 {
        assert!(limiter.check("1.2.3.4", 0));
    }
}

#[test]
fn test_rate_limiter_exactly_max_admissions_per_window() {
    // N checks inside one window with max = M admit exactly min(N, M),
    // however they interleave with other clients.
    let max_req = 4;
    let mut limiter = RateLimiter::new(true, max_req, 10, vec![]);
    let mut admitted = 0;
    for k in 0..12u64 {
        if limiter.check("198.51.100.7", k * 100) {
            admitted += 1;
        }
        // Another client's checks must not affect the count.
        limiter.check("203.0.113.9", k * 100);
    }
    assert_eq!(admitted, max_req);
}

#[test]
fn test_rate_limiter_zero_max_rejects() {
    let mut limiter = RateLimiter::new(true, 0, 10, vec![]);
    assert!(!limiter.check("1.1.1.1", 0));
    assert!(!limiter.check("1.1.1.1", 5));
}

#[test]
fn test_rate_limiter_window_boundary_allows_burst() {
    // Fixed windows allow up to 2 * max across a boundary: max inside
    // the first window, then a reset admits more.
    let mut limiter = RateLimiter::new(true, 2, 1, vec![]);
    let ip = "192.0.2.1";
    assert!(limiter.check(ip, 0));
    assert!(limiter.check(ip, 900));
    assert!(!limiter.check(ip, 1000)); // still inside: elapsed == window
    assert!(limiter.check(ip, 1001)); // elapsed > window: reset, admitted
    assert!(limiter.check(ip, 1002));
    assert!(!limiter.check(ip, 1003));
}

#[test]
fn test_rate_limiter_eviction_drops_only_expired() {
    let mut limiter = RateLimiter::new(true, 5, 2, vec![]);
    assert!(limiter.check("10.0.0.1", 0));
    assert!(limiter.check("10.0.0.2", 1500));
    limiter.evict_expired(3000);
    // 10.0.0.1's window (start 0) had expired at 3000; 10.0.0.2's
    // (start 1500) had not.  The evicted client starts fresh, the kept
    // one keeps its count.
    assert_eq!(limiter.store.len(), 1);
    assert_eq!(limiter.store[0].ip, "10.0.0.2");
    assert_eq!(limiter.store[0].count, 1);
}
