use nost::client::ClientIp;
use nost::detector::ActivityDetector;

fn ip(d: u8) -> ClientIp {
    ClientIp::V4 { a: 198, b: 51, c: 100, d }
}

// 21 distinct paths within one cleanup cycle: the 21st trips the scan
// signal (stock threshold of 20).
#[test]
fn twenty_one_distinct_paths_trip_the_scan_signal() {
    let mut d = ActivityDetector::new();
    let c = ip(1);
    for i in 0..20 {
        let path = format!("/path/{}", i);
        assert!(!d.track_path(&c, &path));
    }
    assert!(d.track_path(&c, "/path/20"));
}

// The same path requested 21 times never trips the signal.
#[test]
fn repeated_path_never_trips_the_scan_signal() {
    let mut d = ActivityDetector::new();
    let c = ip(2);
    for _ in 0..21 {
        assert!(!d.track_path(&c, "/same"));
    }
}

// max_path_diversity=2: /a, /b, /c in sequence; the third call answers
// true and the client's path set is gone afterwards, so the count
// starts over.
#[test]
fn path_set_is_deleted_on_violation() {
    let mut d = ActivityDetector::with_config(10, 2, 60, 50);
    let c = ip(3);
    assert!(!d.track_path(&c, "/a"));
    assert!(!d.track_path(&c, "/b"));
    assert!(d.track_path(&c, "/c"));
    // A fresh set: two more distinct paths fit again.
    assert!(!d.track_path(&c, "/d"));
    assert!(!d.track_path(&c, "/e"));
    assert!(d.track_path(&c, "/f"));
}

// 7 requests each less than 50ms apart: the first six pass (the guard
// needs more than 5 recorded), the seventh is flagged and the
// violating request is not recorded.
#[test]
fn fast_burst_is_flagged_on_the_seventh_request() {
    let mut d = ActivityDetector::new();
    let c = ip(4);
    for k in 0..6u64 {
        assert!(!d.track_timing(&c, k * 10));
    }
    assert!(d.track_timing(&c, 60));
}

// Requests spaced beyond the minimum interval are never flagged.
#[test]
fn spaced_requests_are_never_flagged() {
    let mut d = ActivityDetector::new();
    let c = ip(5);
    for k in 0..30u64 {
        assert!(!d.track_timing(&c, k * 100));
    }
}

// Timestamps outside the window are pruned: a burst after a long
// pause starts from a cold history.
#[test]
fn timing_history_expires_with_the_window() {
    let mut d = ActivityDetector::new();
    let c = ip(6);
    for k in 0..6u64 {
        d.track_timing(&c, k * 10);
    }
    // 2 minutes later everything has left the 60s window.
    for k in 0..6u64 {
        assert!(!d.track_timing(&c, 120_000 + k * 10));
    }
}

// 10 consecutive failures: the streak trips on the tenth.
#[test]
fn ten_consecutive_failures_trip_the_streak() {
    let mut d = ActivityDetector::new();
    let c = ip(7);
    for _ in 0..9 {
        assert!(!d.track_failure(&c));
    }
    assert!(d.track_failure(&c));
}

// A single success before the tenth resets the streak to zero.
#[test]
fn success_resets_the_failure_streak() {
    let mut d = ActivityDetector::new();
    let c = ip(8);
    for _ in 0..5 {
        assert!(!d.track_failure(&c));
    }
    d.reset_failures(&c);
    for _ in 0..9 {
        assert!(!d.track_failure(&c));
    }
    assert!(d.track_failure(&c));
}

// After the streak trips, the counter is gone: the next streak starts
// from zero.
#[test]
fn streak_counter_is_deleted_on_violation() {
    let mut d = ActivityDetector::with_config(3, 20, 60, 50);
    let c = ip(9);
    assert!(!d.track_failure(&c));
    assert!(!d.track_failure(&c));
    assert!(d.track_failure(&c));
    assert!(!d.track_failure(&c));
}

// Cleanup clears all scan history wholesale but leaves failure
// streaks alone.
#[test]
fn cleanup_clears_paths_but_not_failures() {
    let mut d = ActivityDetector::with_config(10, 2, 60, 50);
    let c = ip(10);
    d.track_path(&c, "/a");
    d.track_path(&c, "/b");
    for _ in 0..5 {
        d.track_failure(&c);
    }
    d.cleanup(1_000);
    // Path history restarted...
    assert!(!d.track_path(&c, "/c"));
    assert!(!d.track_path(&c, "/d"));
    assert!(d.track_path(&c, "/e"));
    // ...but the failure streak carried on: 5 recorded, 5 to go.
    for _ in 0..4 {
        assert!(!d.track_failure(&c));
    }
    assert!(d.track_failure(&c));
}

// Running cleanup twice in a row with no intervening traffic changes
// nothing the first pass had not already settled.
#[test]
fn double_cleanup_is_idempotent() {
    let mut d = ActivityDetector::new();
    let c = ip(11);
    for k in 0..6u64 {
        d.track_timing(&c, 29_950 + k * 10);
    }
    d.cleanup(30_010);
    d.cleanup(30_010);
    // All six timestamps survived both sweeps: a request 40ms after
    // the last one still sees more than 5 recent ones and is flagged.
    assert!(d.track_timing(&c, 30_040));
}
