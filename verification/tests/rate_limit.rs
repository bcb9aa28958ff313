use nost::rate_limit::{rate_limit_headers, RateLimiter};

// Requests under the limit pass and the budget counts down; the one
// over the limit is refused with the time left until reset.
#[test]
fn budget_counts_down_and_limits() {
    let mut rl = RateLimiter::new(3, 60);
    let a = rl.check_rate_limit("198.51.100.7", 0);
    assert!(!a.limited);
    assert_eq!((a.limit, a.remaining, a.reset), (3, 2, 60));
    let b = rl.check_rate_limit("198.51.100.7", 1_000);
    assert!(!b.limited);
    assert_eq!(b.remaining, 1);
    let c = rl.check_rate_limit("198.51.100.7", 2_000);
    assert!(!c.limited);
    assert_eq!(c.remaining, 0);
    let d = rl.check_rate_limit("198.51.100.7", 30_000);
    assert!(d.limited);
    assert_eq!(d.remaining, 0);
    // 30s into a 60s window: 30s left.
    assert_eq!(d.reset, 30);
}

// Clients are counted separately.
#[test]
fn clients_do_not_share_budgets() {
    let mut rl = RateLimiter::new(1, 60);
    assert!(!rl.check_rate_limit("a", 0).limited);
    assert!(!rl.check_rate_limit("b", 0).limited);
    assert!(rl.check_rate_limit("a", 1).limited);
}

// A request after the window restarts the count.
#[test]
fn window_restart_refills_the_budget() {
    let mut rl = RateLimiter::new(2, 60);
    rl.check_rate_limit("c", 0);
    rl.check_rate_limit("c", 1);
    assert!(rl.check_rate_limit("c", 2).limited);
    let fresh = rl.check_rate_limit("c", 60_001);
    assert!(!fresh.limited);
    assert_eq!(fresh.remaining, 1);
    assert_eq!(fresh.reset, 60);
}

// Every answer translates into the three rate-limit headers in
// decimal.
#[test]
fn answers_become_headers() {
    let mut rl = RateLimiter::new(120, 60);
    let info = rl.check_rate_limit("d", 0);
    let headers = rate_limit_headers(&info);
    assert_eq!(headers.len(), 3);
    assert_eq!(headers[0], ("X-RateLimit-Limit", "120".to_string()));
    assert_eq!(headers[1], ("X-RateLimit-Remaining", "119".to_string()));
    assert_eq!(headers[2], ("X-RateLimit-Reset", "60".to_string()));
}

// Cleanup drops entries whose window has passed and keeps the rest.
#[test]
fn stale_entries_are_swept() {
    let mut rl = RateLimiter::new(2, 60);
    rl.check_rate_limit("old", 0);
    rl.check_rate_limit("old", 1);
    rl.check_rate_limit("new", 50_000);
    rl.check_rate_limit("new", 50_001);
    rl.cleanup(70_000);
    // "old" was swept: its budget is fresh again.
    assert!(!rl.check_rate_limit("old", 70_001).limited);
    // "new" was kept: still over its limit inside its window.
    assert!(rl.check_rate_limit("new", 70_002).limited);
}
