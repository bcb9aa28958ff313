use nost::limiter::GlobalRateLimiter;

// max_requests=5, window=10s: six requests in 2s; the sixth call
// reports the attack and the flag is readable immediately after.
#[test]
fn six_requests_trip_the_hard_cap() {
    let mut l = GlobalRateLimiter::new(5, 10, 0);
    assert!(!l.track_request(0));
    assert!(!l.track_request(300));
    assert!(!l.track_request(700));
    assert!(!l.track_request(1100));
    assert!(!l.track_request(1600));
    assert!(l.track_request(2000));
    assert!(l.is_under_attack());
}

// Once over the cap, every later call in the same window returns true,
// however slow the traffic becomes.
#[test]
fn over_cap_denies_until_rollover() {
    let mut l = GlobalRateLimiter::new(3, 10, 0);
    for t in [0u64, 10, 20, 30] {
        l.track_request(t);
    }
    assert!(l.track_request(5_000));
    assert!(l.track_request(9_999));
}

// The flag clears only at a rollover whose recomputed rate is back
// under 80% of capacity.
#[test]
fn rollover_clears_the_flag_when_rate_drops() {
    let mut l = GlobalRateLimiter::new(5, 10, 0);
    for t in [0u64, 100, 200, 300, 400, 500] {
        l.track_request(t);
    }
    assert!(l.is_under_attack());
    // Window rolls over at 10s; 6 requests over 12s is 0.5/s > 0.4/s
    // (80% of 5/10s), so the flag stays up at this first rollover.
    assert!(l.track_request(12_000));
    // Next rollover: 1 request over the following 20s, well under.
    assert!(!l.track_request(32_000));
    assert!(!l.is_under_attack());
}

// The recomputed rate is the exact ratio of the closed window.
#[test]
fn rate_is_reported_as_a_ratio() {
    let mut l = GlobalRateLimiter::new(100, 10, 0);
    l.track_request(0);
    l.track_request(1_000);
    l.track_request(2_000);
    assert_eq!(l.get_current_rate(), (0, 0));
    l.track_request(12_000);
    assert_eq!(l.get_current_rate(), (3, 12_000));
}
