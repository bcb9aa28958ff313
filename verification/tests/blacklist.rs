use nost::blacklist::IpBlacklist;
use nost::client::ClientIp;

fn ip(d: u8) -> ClientIp {
    ClientIp::V4 { a: 203, b: 0, c: 113, d }
}

// A client blacklisted at T is denied for every check in
// [T, T + block_duration) and allowed again from T + block_duration.
#[test]
fn block_lasts_exactly_the_duration() {
    let mut b = IpBlacklist::new(30);
    let c = ip(1);
    let t = 5_000u64;
    b.blacklist_ip(c, t);
    assert!(b.is_blacklisted(&c, t));
    assert!(b.is_blacklisted(&c, t + 1));
    assert!(b.is_blacklisted(&c, t + 30 * 60_000 - 1));
    assert!(!b.is_blacklisted(&c, t + 30 * 60_000));
    // The expired entry was removed by the read; later checks agree.
    assert!(!b.is_blacklisted(&c, t + 30 * 60_000 + 1));
}

// Re-blacklisting restarts the penalty clock.
#[test]
fn reblacklist_restarts_the_clock() {
    let mut b = IpBlacklist::new(30);
    let c = ip(2);
    b.blacklist_ip(c, 0);
    b.blacklist_ip(c, 10 * 60_000);
    // 30 minutes after the first listing, but only 20 after the second.
    assert!(b.is_blacklisted(&c, 30 * 60_000));
    assert!(!b.is_blacklisted(&c, 40 * 60_000));
}

// An unknown client is never blacklisted.
#[test]
fn unknown_client_is_clear() {
    let mut b = IpBlacklist::new(30);
    assert!(!b.is_blacklisted(&ip(3), 0));
}

// The periodic sweep removes exactly the expired entries.
#[test]
fn cleanup_drops_only_expired_entries() {
    let mut b = IpBlacklist::new(1);
    let old = ip(4);
    let fresh = ip(5);
    b.blacklist_ip(old, 0);
    b.blacklist_ip(fresh, 50_000);
    b.cleanup(70_000);
    assert!(!b.is_blacklisted(&old, 70_000));
    assert!(b.is_blacklisted(&fresh, 70_000));
}
