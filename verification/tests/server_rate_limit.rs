//! Limits on handshake requests to the server.

use hpn::net::IpAddr;
use hpn::server::rate_limit::{
    rate_limit_key, HandshakeRateLimiter, CLEANUP_INTERVAL_SECS, DEFAULT_MAX_HANDSHAKES_PER_MINUTE,
    DEFAULT_MAX_TRACKED_IPS, RATE_LIMIT_WINDOW_SECS,
};
use hpn::time::Duration;

fn test_ip(last_octet: u8) -> IpAddr {
    IpAddr::v4(192, 168, 1, last_octet)
}

#[test]
fn test_basic_rate_limiting() {
    let mut limiter = HandshakeRateLimiter::with_limit(3);
    let ip = test_ip(1);

    // First 3 requests should be allowed
    assert!(limiter.allow(ip));
    assert!(limiter.allow(ip));
    assert!(limiter.allow(ip));

    // 4th request should be rate limited
    assert!(!limiter.allow(ip));
    assert!(!limiter.allow(ip));
}

#[test]
fn test_different_ips_independent() {
    let mut limiter = HandshakeRateLimiter::with_limit(2);
    let ip1 = test_ip(1);
    let ip2 = test_ip(2);

    // Both IPs should have independent limits
    assert!(limiter.allow(ip1));
    assert!(limiter.allow(ip1));
    assert!(!limiter.allow(ip1));

    // IP2 should still be allowed
    assert!(limiter.allow(ip2));
    assert!(limiter.allow(ip2));
    assert!(!limiter.allow(ip2));
}

#[test]
fn test_check_without_increment() {
    let mut limiter = HandshakeRateLimiter::with_limit(2);
    let ip = test_ip(1);

    // Check should not increment
    assert!(limiter.check(ip));
    assert!(limiter.check(ip));
    assert_eq!(limiter.get_count(ip), 0);

    // Allow should increment
    assert!(limiter.allow(ip));
    assert_eq!(limiter.get_count(ip), 1);
}

#[test]
fn test_reset() {
    let mut limiter = HandshakeRateLimiter::with_limit(2);
    let ip = test_ip(1);

    assert!(limiter.allow(ip));
    assert!(limiter.allow(ip));
    assert!(!limiter.allow(ip));

    // Reset should allow again
    limiter.reset(ip);
    assert!(limiter.allow(ip));
}

#[test]
fn test_tracked_ips() {
    let mut limiter = HandshakeRateLimiter::with_limit(10);

    assert_eq!(limiter.tracked_ips(), 0);

    limiter.allow(test_ip(1));
    assert_eq!(limiter.tracked_ips(), 1);

    limiter.allow(test_ip(2));
    assert_eq!(limiter.tracked_ips(), 2);

    limiter.allow(test_ip(1)); // Same IP
    assert_eq!(limiter.tracked_ips(), 2);
}

#[test]
fn test_clear() {
    let mut limiter = HandshakeRateLimiter::with_limit(10);

    limiter.allow(test_ip(1));
    limiter.allow(test_ip(2));
    assert_eq!(limiter.tracked_ips(), 2);

    limiter.clear();
    assert_eq!(limiter.tracked_ips(), 0);
}

#[test]
fn test_default() {
    let mut limiter = HandshakeRateLimiter::default();
    let ip = test_ip(1);

    // Default is 5 per minute (DoS protection)
    for _ in 0..5 {
        assert!(limiter.allow(ip));
    }
    assert!(!limiter.allow(ip));
}

#[test]
fn test_capacity_limit() {
    // Create limiter with small capacity for testing
    let mut limiter = HandshakeRateLimiter::with_limits(10, 3);

    // First 3 IPs should be tracked
    assert!(limiter.allow(test_ip(1)));
    assert!(limiter.allow(test_ip(2)));
    assert!(limiter.allow(test_ip(3)));
    assert_eq!(limiter.tracked_ips(), 3);

    // 4th IP should be rejected (capacity reached)
    assert!(!limiter.allow(test_ip(4)));
    assert_eq!(limiter.tracked_ips(), 3);

    // Existing IPs should still work
    assert!(limiter.allow(test_ip(1)));
    assert!(limiter.allow(test_ip(2)));

    // After clearing, new IPs can be added
    limiter.clear();
    assert!(limiter.allow(test_ip(100)));
}

#[test]
fn test_rate_limit_burst_exceeded() {
    // BUSINESS LOGIC TEST: Rate limiting burst and concurrent access
    // This test validates:
    // - Burst capacity enforcement (exact limit boundary)
    // - Concurrent requests from same IP don't bypass limits
    // - Rate limit window reset behavior
    // - Thread-safe request counting under load

    const BURST_LIMIT: u32 = 10;
    const NUM_THREADS: usize = 5;
    const REQUESTS_PER_THREAD: usize = 4; // 5 * 4 = 20 total requests

    let mut limiter = HandshakeRateLimiter::with_limit(BURST_LIMIT);
    let test_addr = test_ip(42);

    // First burst should allow exactly BURST_LIMIT requests
    for i in 0..BURST_LIMIT {
        assert!(
            limiter.allow(test_addr),
            "Request {} should be allowed (within burst limit)",
            i
        );
    }

    // Next request should be rejected
    assert!(
        !limiter.allow(test_addr),
        "Request after burst limit should be rejected"
    );

    // Further requests from same IP should all be rejected
    let mut total_allowed: usize = 0;
    for _ in 0..NUM_THREADS * REQUESTS_PER_THREAD {
        if limiter.allow(test_addr) {
            total_allowed += 1;
        }
    }

    // All concurrent requests should be rejected (already at limit)
    assert_eq!(
        total_allowed, 0,
        "All concurrent requests should be rejected when at burst limit"
    );

    // Verify final count is still at the limit
    assert_eq!(
        limiter.get_count(test_addr),
        BURST_LIMIT,
        "Count should remain at burst limit"
    );

    // Reset and verify new requests allowed
    limiter.reset(test_addr);
    assert!(
        limiter.allow(test_addr),
        "After reset, requests should be allowed again"
    );
    assert_eq!(
        limiter.get_count(test_addr),
        1,
        "Count should be 1 after reset"
    );
}

#[test]
fn test_max_tracked_ips_enforcement() {
    let mut limiter = HandshakeRateLimiter::with_limits(10, 3);

    // Fill up to capacity
    assert!(limiter.allow(test_ip(1)));
    assert!(limiter.allow(test_ip(2)));
    assert!(limiter.allow(test_ip(3)));
    assert_eq!(limiter.tracked_ips(), 3);

    // Next IP should be rejected (at capacity)
    assert!(!limiter.allow(test_ip(4)));
    assert_eq!(limiter.tracked_ips(), 3);
}

#[test]
fn test_get_count_nonexistent_ip() {
    let mut limiter = HandshakeRateLimiter::new();
    let ip = test_ip(99);

    assert_eq!(limiter.get_count(ip), 0);
}

#[test]
fn test_reset_nonexistent_ip() {
    let mut limiter = HandshakeRateLimiter::new();
    let ip = test_ip(99);

    // Reset on non-existent IP should be a no-op
    limiter.reset(ip);
    assert_eq!(limiter.tracked_ips(), 0);
}

#[test]
fn test_check_nonexistent_ip() {
    let mut limiter = HandshakeRateLimiter::new();
    let ip = test_ip(99);

    // Non-existent IP should be allowed
    assert!(limiter.check(ip));
}

#[test]
fn asking_tells_what_a_request_would_get() {
    let mut limiter = HandshakeRateLimiter::with_limits(1, 2);
    assert!(limiter.allow_at(test_ip(1), 1_000_000_000));
    assert!(!limiter.check_at(test_ip(1), 1_000_000_000));
    assert!(limiter.check_at(test_ip(2), 1_000_000_000));
    assert!(limiter.allow_at(test_ip(2), 1_000_000_000));
    // At capacity a third address is refused, and asking says so.
    assert!(!limiter.check_at(test_ip(3), 1_000_000_000));
    assert!(!limiter.allow_at(test_ip(3), 1_000_000_000));
    // Its window over, an address may go on; the third waits for the next cleanup.
    assert!(limiter.check_at(test_ip(1), 62_000_000_000));
    assert!(!limiter.check_at(test_ip(3), 62_000_000_000));
    assert!(limiter.check_at(test_ip(3), 400_000_000_000));
    assert!(limiter.allow_at(test_ip(3), 400_000_000_000));
    assert_eq!(limiter.tracked_ips(), 1);
}

#[test]
fn a_limit_of_zero_refuses_all() {
    let mut limiter = HandshakeRateLimiter::with_limit(0);
    assert!(!limiter.check_at(test_ip(1), 1_000_000_000));
    assert!(!limiter.allow_at(test_ip(1), 1_000_000_000));
    assert!(!limiter.check_at(test_ip(1), 62_000_000_000));
    assert!(!limiter.allow_at(test_ip(1), 62_000_000_000));
    assert!(!limiter.allow_at(test_ip(1), 400_000_000_000));
}

#[test]
fn test_clear_all_entries() {
    let mut limiter = HandshakeRateLimiter::with_limit(5);

    // Add multiple IPs
    for i in 1..=10 {
        limiter.allow(test_ip(i));
    }
    assert_eq!(limiter.tracked_ips(), 10);

    // Clear all
    limiter.clear();
    assert_eq!(limiter.tracked_ips(), 0);

    // All IPs should be allowed again
    assert!(limiter.allow(test_ip(1)));
    assert_eq!(limiter.get_count(test_ip(1)), 1);
}

#[test]
fn test_ipv6_addresses() {
    let mut limiter = HandshakeRateLimiter::with_limit(2);
    let ipv6 = (IpAddr::V6(0x2001_0db8_0000_0000_0000_0000_0000_0001));

    assert!(limiter.allow(ipv6));
    assert!(limiter.allow(ipv6));
    assert!(!limiter.allow(ipv6)); // Rate limited

    assert_eq!(limiter.get_count(ipv6), 2);
}

#[test]
fn test_ipv6_slash64_aggregation() {
    // Any address inside the same /64 must share the bucket, otherwise a
    // routed /64 (common hosting allocation) lets an attacker burn the
    // per-IP limit trivially.
    let mut limiter = HandshakeRateLimiter::with_limit(3);
    let a: IpAddr = IpAddr::V6(0x2001_0db8_1234_5678_0000_0000_0000_0001);
    let b: IpAddr = IpAddr::V6(0x2001_0db8_1234_5678_0000_0000_0000_ffff);
    let c: IpAddr = IpAddr::V6(0x2001_0db8_1234_5678_aaaa_bbbb_cccc_dddd);
    // Different /64 (last of third segment differs).
    let other: IpAddr = IpAddr::V6(0x2001_0db8_1234_5679_0000_0000_0000_0001);

    assert!(limiter.allow(a));
    assert!(limiter.allow(b));
    assert!(limiter.allow(c));
    // Same /64, fourth request inside the bucket must be rejected.
    assert!(!limiter.allow(a));
    assert!(!limiter.allow(b));

    // Different /64 is tracked independently.
    assert!(limiter.allow(other));
    assert_eq!(limiter.get_count(other), 1);

    // Only two tracked buckets (the shared /64 and the other /64), despite
    // four distinct /128 addresses having been used.
    assert_eq!(limiter.tracked_ips(), 2);
}

#[test]
fn test_rate_limit_key_normalisation() {
    // Direct check on the helper so refactors do not silently regress.
    let a: IpAddr = IpAddr::V6(0x2001_0db8_1234_5678_0000_0000_0000_0001);
    let b: IpAddr = IpAddr::V6(0x2001_0db8_1234_5678_ffff_ffff_ffff_ffff);
    assert_eq!(rate_limit_key(a), rate_limit_key(b));

    let v4: IpAddr = IpAddr::v4(198, 51, 100, 42);
    assert_eq!(rate_limit_key(v4), v4);
}

#[test]
fn test_zero_limit() {
    let mut limiter = HandshakeRateLimiter::with_limit(0);
    let ip = test_ip(1);

    // With limit of 0, all requests should be rejected
    assert!(!limiter.allow(ip));
    assert!(!limiter.allow(ip));
}

#[test]
fn test_very_high_limit() {
    let mut limiter = HandshakeRateLimiter::with_limit(1000);
    let ip = test_ip(1);

    // Should allow many requests
    for _ in 0..100 {
        assert!(limiter.allow(ip));
    }
    assert_eq!(limiter.get_count(ip), 100);
}

#[test]
fn test_with_limits_custom_values() {
    let mut limiter = HandshakeRateLimiter::with_limits(7, 500);
    let ip = test_ip(1);

    // Should allow up to 7 requests
    for _ in 0..7 {
        assert!(limiter.allow(ip));
    }
    assert!(!limiter.allow(ip));
    assert_eq!(limiter.get_count(ip), 7);
}

#[test]
fn test_constants() {
    assert_eq!(DEFAULT_MAX_HANDSHAKES_PER_MINUTE, 5);
    assert_eq!(Duration::from_secs(RATE_LIMIT_WINDOW_SECS), Duration::from_secs(60));
    assert_eq!(Duration::from_secs(CLEANUP_INTERVAL_SECS), Duration::from_secs(300));
    assert_eq!(DEFAULT_MAX_TRACKED_IPS, 100_000);
}

#[test]
fn test_multiple_resets() {
    let mut limiter = HandshakeRateLimiter::with_limit(2);
    let ip = test_ip(1);

    assert!(limiter.allow(ip));
    assert!(limiter.allow(ip));
    assert_eq!(limiter.get_count(ip), 2);

    limiter.reset(ip);
    assert_eq!(limiter.get_count(ip), 0);

    assert!(limiter.allow(ip));
    limiter.reset(ip);
    assert_eq!(limiter.get_count(ip), 0);
}

#[test]
fn test_check_does_not_affect_allow() {
    let mut limiter = HandshakeRateLimiter::with_limit(2);
    let ip = test_ip(1);

    // Multiple checks should not increment
    assert!(limiter.check(ip));
    assert!(limiter.check(ip));
    assert!(limiter.check(ip));

    // Allow should still work normally
    assert!(limiter.allow(ip));
    assert!(limiter.allow(ip));
    assert!(!limiter.allow(ip)); // Now at limit
}

#[test]
fn windows_end_after_a_minute() {
    let mut limiter = HandshakeRateLimiter::with_limit(1);
    let ip = test_ip(1);
    assert!(limiter.allow_at(ip, 1_000_000));
    assert!(!limiter.allow_at(ip, 60_001_000_000));
    assert!(!limiter.check_at(ip, 60_001_000_000));
    assert_eq!(limiter.get_count_at(ip, 60_001_000_000), 1);
    assert!(limiter.check_at(ip, 60_001_000_001));
    assert_eq!(limiter.get_count_at(ip, 60_001_000_001), 0);
    assert!(limiter.allow_at(ip, 60_001_000_001));
    assert!(!limiter.allow_at(ip, 60_001_002_000));
}

#[test]
fn a_full_table_refuses_new_addresses_until_cleanup() {
    let mut limiter = HandshakeRateLimiter::with_limits(1, 1);
    assert!(limiter.allow_at(test_ip(1), 1_000_000));
    assert!(!limiter.allow_at(test_ip(2), 100_000_000_000));
    assert!(limiter.allow_at(test_ip(2), 400_000_000_000_000));
    assert_eq!(limiter.tracked_ips(), 1);
    limiter.cleanup_at(900_000_000_000_000);
    assert_eq!(limiter.tracked_ips(), 0);
}
