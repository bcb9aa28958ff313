use nost::admission::{security_headers, AdmissionDecision, DdosProtectionState, ResponseOutcome};
use nost::client::ClientIp;

fn ip(d: u8) -> ClientIp {
    ClientIp::V4 { a: 192, b: 0, c: 2, d }
}

// A request with no resolvable identity is rejected before any state
// is touched.
#[test]
fn malformed_identity_is_rejected() {
    let mut s = DdosProtectionState::new(0);
    let r = s.check_request(None, "/", 0);
    assert_eq!(r, AdmissionDecision::RejectMalformedIdentity);
    assert_eq!(r.status_code(), 400);
    assert_eq!(r.message(), "Invalid IP address");
}

// A scan (21 distinct paths) is rejected and the client is
// blacklisted on the spot: the very next request is refused as
// blacklisted, whatever its path.
#[test]
fn scan_is_rejected_and_blacklisted() {
    let mut s = DdosProtectionState::new(0);
    let c = ip(1);
    for i in 0..20u64 {
        let path = format!("/scan/{}", i);
        let r = s.check_request(Some(c), &path, i * 1_000);
        assert!(matches!(r, AdmissionDecision::Allow { .. }));
    }
    let r = s.check_request(Some(c), "/scan/20", 20_000);
    assert_eq!(r, AdmissionDecision::RejectScanDetected);
    assert_eq!(r.status_code(), 403);
    assert_eq!(r.message(), "Too many unique requests - scanning detected");
    let r = s.check_request(Some(c), "/", 21_000);
    assert_eq!(r, AdmissionDecision::RejectBlacklisted);
    assert_eq!(r.status_code(), 403);
    assert_eq!(r.message(), "IP address blocked due to suspicious activity");
}

// A burst (seventh request inside the minimum interval) is rejected
// and blacklisted.
#[test]
fn burst_is_rejected_and_blacklisted() {
    let mut s = DdosProtectionState::new(0);
    let c = ip(2);
    for k in 0..6u64 {
        let r = s.check_request(Some(c), "/", k * 10);
        assert!(matches!(r, AdmissionDecision::Allow { .. }));
    }
    let r = s.check_request(Some(c), "/", 60);
    assert_eq!(r, AdmissionDecision::RejectBurstDetected);
    assert_eq!(r.status_code(), 403);
    let r = s.check_request(Some(c), "/", 1_000);
    assert_eq!(r, AdmissionDecision::RejectBlacklisted);
}

// Under a global attack an ordinary client is shed with 503, while a
// whitelisted (private-range) client is still served and told about
// the attack mode.
#[test]
fn overload_spares_whitelisted_clients() {
    let mut s = DdosProtectionState::new(0);
    // 1001 requests from distinct clients within one window trip the
    // global cap of 1000.
    for i in 0..1001u64 {
        let c = ClientIp::V6 { hi: 1, lo: i };
        let path = format!("/{}", i % 3);
        s.check_request(Some(c), &path, 5_000);
    }
    let shed = s.check_request(Some(ip(3)), "/", 5_500);
    assert_eq!(shed, AdmissionDecision::RejectOverload);
    assert_eq!(shed.status_code(), 503);
    assert_eq!(
        shed.message(),
        "Server is currently under high load. Please try again later."
    );
    let local = ClientIp::V4 { a: 10, b: 0, c: 0, d: 1 };
    let served = s.check_request(Some(local), "/", 5_600);
    assert_eq!(served, AdmissionDecision::Allow { under_attack: true });
    let home = ClientIp::V4 { a: 192, b: 168, c: 1, d: 1 };
    let served = s.check_request(Some(home), "/", 5_700);
    assert_eq!(served, AdmissionDecision::Allow { under_attack: true });
}

// Ten failing responses blacklist the client through the outcome
// accounting; a success in between starts the streak over.
#[test]
fn failure_streak_blacklists_through_outcomes() {
    let mut s = DdosProtectionState::new(0);
    let c = ip(4);
    for k in 0..9u64 {
        assert!(matches!(
            s.check_request(Some(c), "/page", 100_000 + k * 1_000),
            AdmissionDecision::Allow { .. }
        ));
        s.observe_outcome(&c, ResponseOutcome::ServerError, 100_000 + k * 1_000);
    }
    // One success wipes the streak...
    s.observe_outcome(&c, ResponseOutcome::Success, 110_000);
    for k in 0..10u64 {
        assert!(matches!(
            s.check_request(Some(c), "/page", 120_000 + k * 1_000),
            AdmissionDecision::Allow { .. }
        ));
        s.observe_outcome(&c, ResponseOutcome::ClientError, 120_000 + k * 1_000);
    }
    // ...so only the tenth consecutive failure after it blacklists.
    assert_eq!(
        s.check_request(Some(c), "/page", 130_000),
        AdmissionDecision::RejectBlacklisted
    );
}

// The blacklist penalty expires: 30 minutes after the violation the
// client is served again.
#[test]
fn blacklist_expires_in_the_pipeline() {
    let mut s = DdosProtectionState::new(0);
    let c = ip(5);
    for k in 0..6u64 {
        s.check_request(Some(c), "/", k * 10);
    }
    assert_eq!(
        s.check_request(Some(c), "/", 60),
        AdmissionDecision::RejectBurstDetected
    );
    assert_eq!(
        s.check_request(Some(c), "/", 60 + 30 * 60_000 - 1),
        AdmissionDecision::RejectBlacklisted
    );
    assert!(matches!(
        s.check_request(Some(c), "/", 60 + 30 * 60_000),
        AdmissionDecision::Allow { .. }
    ));
}

// Maintenance resets scan history, and running it twice at one
// instant is no different from once.
#[test]
fn maintenance_resets_scan_history() {
    let mut s = DdosProtectionState::new(0);
    let c = ip(6);
    for i in 0..15u64 {
        let path = format!("/p/{}", i);
        s.check_request(Some(c), &path, i * 1_000);
    }
    s.maintain(20_000);
    s.maintain(20_000);
    // The 15 old paths are forgotten: 20 fresh ones fit again.
    for i in 0..20u64 {
        let path = format!("/q/{}", i);
        let r = s.check_request(Some(c), &path, 30_000 + i * 1_000);
        assert!(matches!(r, AdmissionDecision::Allow { .. }));
    }
}

// Every response carries the hardening headers; attack mode adds its
// marker.
#[test]
fn security_headers_are_fixed() {
    let calm = security_headers(false);
    assert_eq!(calm.len(), 3);
    assert_eq!(calm[0], ("X-Content-Type-Options", "nosniff"));
    assert_eq!(calm[1], ("X-Frame-Options", "DENY"));
    assert_eq!(calm[2], ("X-XSS-Protection", "1; mode=block"));
    let attacked = security_headers(true);
    assert_eq!(attacked.len(), 4);
    assert_eq!(attacked[3], ("X-Under-Attack-Mode", "true"));
}
