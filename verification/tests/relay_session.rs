//! Relay sessions and their rate limits.

use hpn::net::{IpAddr, SocketAddr};
use hpn::relay::rate_limiter::RateLimiter;
use hpn::relay::session::{RelaySession, SessionId};
use hpn::relay::session_manager::{ClientPacketProcessResult, SessionManager};
use hpn::relay::stats::format_bytes;
use hpn::time::{Clock, Duration};

fn pause(ms: u64) {
    let start = std::time::Instant::now();
    while start.elapsed() < std::time::Duration::from_millis(ms) {}
}

#[test]
fn test_session_creation() {
    let mut manager = SessionManager::new(Duration::from_secs(60), 100);
    let session_id = SessionId(1001);
    let addr: SocketAddr = SocketAddr::new(IpAddr::v4(127, 0, 0, 1), 12345);

    // First call creates session
    assert!(manager.get_or_create(session_id, addr));
    assert_eq!(manager.session_count(), 1);

    // Second call returns existing
    assert!(!manager.get_or_create(session_id, addr));
    assert_eq!(manager.session_count(), 1);
}

#[test]
fn test_session_roaming_blocked() {
    // SECURITY: Roaming is intentionally disabled in relay mode to prevent
    // session hijacking attacks. This test verifies that behavior.
    let mut manager = SessionManager::new(Duration::from_secs(60), 100);
    let session_id = SessionId(1002);
    let addr1: SocketAddr = SocketAddr::new(IpAddr::v4(127, 0, 0, 1), 12345);
    let addr2: SocketAddr = SocketAddr::new(IpAddr::v4(127, 0, 0, 1), 12346);

    // Create session with first address
    assert!(manager.get_or_create(session_id, addr1));
    assert_eq!(manager.get_client_addr(session_id), Some(addr1));

    // Attempt to "roam" to new address - should be rejected (returns false = not new)
    // and address should remain unchanged
    assert!(!manager.get_or_create(session_id, addr2));
    // Address should still be the original one
    assert_eq!(manager.get_client_addr(session_id), Some(addr1));
}

#[test]
fn test_session_stats() {
    let mut manager = SessionManager::new(Duration::from_secs(60), 100);
    let session_id = SessionId(1003);
    let addr: SocketAddr = SocketAddr::new(IpAddr::v4(127, 0, 0, 1), 12345);

    manager.get_or_create(session_id, addr);
    manager.record_sent(session_id, 1000);
    manager.record_received(session_id, 2000);

    let stats = manager.aggregate_stats();
    assert_eq!(stats.total_bytes_sent, 1000);
    assert_eq!(stats.total_bytes_received, 2000);
    assert_eq!(stats.total_packets_sent, 1);
    assert_eq!(stats.total_packets_received, 1);
}

#[test]
fn test_rate_limiter_unlimited() {
    let mut limiter = RateLimiter::unlimited();
    // Unlimited should always allow
    for _ in 0..1000 {
        assert!(limiter.check(1500));
    }
}

#[test]
fn test_rate_limiter_pps() {
    // Allow 10 packets per second (initial bucket = 10, burst allows up to 2x = 20)
    let mut limiter = RateLimiter::new(10, 0);
    // Should allow first 10 packets (initial bucket starts at max_pps)
    for i in 0..10 {
        assert!(limiter.check(100), "packet {} should be allowed", i);
    }
    // 11th packet should be rate limited (no refill yet)
    assert!(!limiter.check(100), "packet 11 should be rate limited");
}

#[test]
fn test_rate_limiter_bps() {
    // Allow 1000 bytes per second (initial bucket = 1000)
    let mut limiter = RateLimiter::new(0, 1000);
    // Should allow first 1000 bytes
    assert!(limiter.check(500));
    assert!(limiter.check(500));
    // Next should be rate limited
    assert!(!limiter.check(100));
}

#[test]
fn test_session_with_rate_limit() {
    // Create manager with rate limits: 5 pps, 5000 bps
    let mut manager = SessionManager::with_rate_limits(Duration::from_secs(60), 100, 5, 5000);
    let session_id = SessionId(1004);
    let addr: SocketAddr = SocketAddr::new(IpAddr::v4(127, 0, 0, 1), 12345);

    manager.get_or_create(session_id, addr);
    assert!(manager.is_rate_limited());

    // First 5 packets should be allowed (initial bucket = max_pps = 5)
    for i in 0..5 {
        assert!(
            manager.check_rate_limit(session_id, 100),
            "packet {} should be allowed",
            i
        );
    }
    // 6th packet should be rate limited
    assert!(!manager.check_rate_limit(session_id, 100));
}

#[test]
fn test_relay_session_creation() {
    let session_id = SessionId(1005);
    let addr: SocketAddr = SocketAddr::new(IpAddr::v4(192, 168, 1, 1), 5000);
    let mut session = RelaySession::new(session_id, addr);

    assert_eq!(session.session_id, session_id);
    assert_eq!(session.client_addr, addr);
    assert_eq!(session.bytes_sent, 0);
    assert_eq!(session.bytes_received, 0);
    assert_eq!(session.packets_sent, 0);
    assert_eq!(session.packets_received, 0);
}

#[test]
fn test_relay_session_with_rate_limit() {
    let session_id = SessionId(1006);
    let addr: SocketAddr = SocketAddr::new(IpAddr::v4(10, 0, 0, 1), 8080);
    let mut session = RelaySession::with_rate_limit(session_id, addr, 100, 10000);

    assert_eq!(session.session_id, session_id);
    assert_eq!(session.client_addr, addr);
}

#[test]
fn test_relay_session_record_traffic() {
    let session_id = SessionId(1007);
    let addr: SocketAddr = SocketAddr::new(IpAddr::v4(172, 16, 0, 1), 9090);
    let mut session = RelaySession::new(session_id, addr);

    session.record_sent(1500);
    assert_eq!(session.bytes_sent, 1500);
    assert_eq!(session.packets_sent, 1);

    session.record_received(2000);
    assert_eq!(session.bytes_received, 2000);
    assert_eq!(session.packets_received, 1);

    // Record more
    session.record_sent(500);
    assert_eq!(session.bytes_sent, 2000);
    assert_eq!(session.packets_sent, 2);
}

#[test]
fn test_relay_session_touch() {
    let session_id = SessionId(1008);
    let addr: SocketAddr = SocketAddr::new(IpAddr::v4(203, 0, 113, 1), 1234);
    let mut session = RelaySession::new(session_id, addr);

    let initial = session.last_activity_ms;
    pause(10);
    session.touch();
    let after = session.last_activity_ms;

    assert!(after > initial);
}

#[test]
fn test_relay_session_is_expired() {
    let session_id = SessionId(1009);
    let addr: SocketAddr = SocketAddr::new(IpAddr::v4(10, 1, 1, 1), 7777);
    let mut session = RelaySession::new(session_id, addr);

    // Should not be expired immediately
    assert!(!session.is_expired(Duration::from_millis(100)));

    pause(150);

    // Should be expired after 150ms with 100ms timeout
    assert!(session.is_expired(Duration::from_millis(100)));

    // Touch resets expiry
    session.touch();
    assert!(!session.is_expired(Duration::from_millis(100)));
}

#[test]
fn test_relay_session_stats() {
    let session_id = SessionId(1010);
    let addr: SocketAddr = SocketAddr::new(IpAddr::v4(198, 51, 100, 1), 5678);
    let mut session = RelaySession::new(session_id, addr);

    session.record_sent(1500);
    session.record_received(2500);

    let stats = session.stats();
    assert_eq!(stats.session_id, session_id);
    assert_eq!(stats.client_addr, addr);
    assert_eq!(stats.bytes_sent, 1500);
    assert_eq!(stats.bytes_received, 2500);
    assert_eq!(stats.packets_sent, 1);
    assert_eq!(stats.packets_received, 1);
    assert!(stats.age.as_secs() < 1);
}

#[test]
fn test_relay_session_check_rate_limit() {
    let session_id = SessionId(1011);
    let addr: SocketAddr = SocketAddr::new(IpAddr::v4(192, 0, 2, 1), 4321);
    let mut session = RelaySession::with_rate_limit(session_id, addr, 10, 10000);

    // First 10 packets should be allowed
    for i in 0..10 {
        assert!(session.check_rate_limit(100), "packet {} should pass", i);
    }

    // 11th should be rate limited
    assert!(!session.check_rate_limit(100));
}

#[test]
fn test_session_manager_get_client_addr() {
    let mut manager = SessionManager::new(Duration::from_secs(60), 100);
    let session_id = SessionId(1012);
    let addr: SocketAddr = SocketAddr::new(IpAddr::v4(127, 0, 0, 1), 9999);

    assert_eq!(manager.get_client_addr(session_id), None);

    manager.get_or_create(session_id, addr);
    assert_eq!(manager.get_client_addr(session_id), Some(addr));
}

#[test]
fn test_session_manager_touch() {
    let mut manager = SessionManager::new(Duration::from_secs(60), 100);
    let session_id = SessionId(1013);
    let addr: SocketAddr = SocketAddr::new(IpAddr::v4(127, 0, 0, 1), 8888);

    manager.get_or_create(session_id, addr);

    pause(10);
    manager.touch(session_id);

    // Touch should prevent immediate timeout
    assert_eq!(manager.session_count(), 1);
}

#[test]
fn test_session_manager_record_sent() {
    let mut manager = SessionManager::new(Duration::from_secs(60), 100);
    let session_id = SessionId(1014);
    let addr: SocketAddr = SocketAddr::new(IpAddr::v4(127, 0, 0, 1), 7777);

    manager.get_or_create(session_id, addr);
    manager.record_sent(session_id, 1024);

    let stats = manager.aggregate_stats();
    assert_eq!(stats.total_bytes_sent, 1024);
    assert_eq!(stats.total_packets_sent, 1);
}

#[test]
fn test_session_manager_record_received() {
    let mut manager = SessionManager::new(Duration::from_secs(60), 100);
    let session_id = SessionId(1015);
    let addr: SocketAddr = SocketAddr::new(IpAddr::v4(127, 0, 0, 1), 6666);

    manager.get_or_create(session_id, addr);
    manager.record_received(session_id, 2048);

    let stats = manager.aggregate_stats();
    assert_eq!(stats.total_bytes_received, 2048);
    assert_eq!(stats.total_packets_received, 1);
}

#[test]
fn test_session_manager_multiple_sessions() {
    let mut manager = SessionManager::new(Duration::from_secs(60), 100);

    let id1 = SessionId(1016);
    let id2 = SessionId(1017);
    let id3 = SessionId(1018);

    let addr1: SocketAddr = SocketAddr::new(IpAddr::v4(127, 0, 0, 1), 1111);
    let addr2: SocketAddr = SocketAddr::new(IpAddr::v4(127, 0, 0, 1), 2222);
    let addr3: SocketAddr = SocketAddr::new(IpAddr::v4(127, 0, 0, 1), 3333);

    manager.get_or_create(id1, addr1);
    manager.get_or_create(id2, addr2);
    manager.get_or_create(id3, addr3);

    assert_eq!(manager.session_count(), 3);
    assert_eq!(manager.get_client_addr(id1), Some(addr1));
    assert_eq!(manager.get_client_addr(id2), Some(addr2));
    assert_eq!(manager.get_client_addr(id3), Some(addr3));
}

#[test]
fn test_session_manager_max_sessions() {
    let mut manager = SessionManager::new(Duration::from_secs(60), 2);

    let id1 = SessionId(1019);
    let id2 = SessionId(1020);
    let id3 = SessionId(1021);

    let addr: SocketAddr = SocketAddr::new(IpAddr::v4(127, 0, 0, 1), 5000);

    assert!(manager.get_or_create(id1, addr));
    assert!(manager.get_or_create(id2, addr));
    assert!(!manager.get_or_create(id3, addr)); // Should fail - max reached

    assert_eq!(manager.session_count(), 2);
}

#[test]
fn test_session_manager_cleanup_expired() {
    let mut manager = SessionManager::new(Duration::from_millis(50), 100);
    let session_id = SessionId(1022);
    let addr: SocketAddr = SocketAddr::new(IpAddr::v4(127, 0, 0, 1), 4000);

    manager.get_or_create(session_id, addr);
    assert_eq!(manager.session_count(), 1);

    pause(100);

    let removed = manager.cleanup_expired();
    assert!(removed > 0);
    assert_eq!(manager.session_count(), 0);
}

#[test]
fn test_session_manager_is_rate_limited() {
    let mut manager = SessionManager::new(Duration::from_secs(60), 100);
    assert!(!manager.is_rate_limited());

    let manager_limited =
        SessionManager::with_rate_limits(Duration::from_secs(60), 100, 100, 100000);
    assert!(manager_limited.is_rate_limited());
}

#[test]
fn test_session_manager_check_rate_limit_nonexistent() {
    let mut manager = SessionManager::with_rate_limits(Duration::from_secs(60), 100, 10, 10000);
    let session_id = SessionId(1023);

    // Should return false for nonexistent session (fail-closed for security)
    assert!(!manager.check_rate_limit(session_id, 100));
}

#[test]
fn test_rate_limiter_new() {
    let mut limiter = RateLimiter::new(100, 100000);
    assert_eq!(limiter.max_pps, 100);
    assert_eq!(limiter.max_bps, 100000);
    assert_eq!(limiter.packet_tokens, 100);
    assert_eq!(limiter.byte_tokens, 100000);
}

#[test]
fn test_rate_limiter_both_limits() {
    let mut limiter = RateLimiter::new(10, 1000);

    // Should allow packets that fit both limits
    for i in 0..10 {
        assert!(limiter.check(100), "packet {} should be allowed", i);
    }

    // 11th packet should fail (pps limit)
    assert!(!limiter.check(100));
}

#[test]
fn test_rate_limiter_byte_limit_exhaustion() {
    let mut limiter = RateLimiter::new(100, 1000);

    // Use up byte quota with large packets
    assert!(limiter.check(500));
    assert!(limiter.check(500));

    // Should fail on byte limit even though packet limit not reached
    assert!(!limiter.check(100));
}

#[test]
fn test_rate_limiter_zero_limits_unlimited() {
    let mut limiter = RateLimiter::new(0, 0);

    for _ in 0..10000 {
        assert!(limiter.check(10000));
    }
}

#[test]
fn test_format_bytes() {
    assert_eq!(format_bytes(0), "0 B");
    assert_eq!(format_bytes(512), "512 B");
    assert_eq!(format_bytes(1024), "1.00 KB");
    assert_eq!(format_bytes(1536), "1.50 KB");
    assert_eq!(format_bytes(1048576), "1.00 MB");
    assert_eq!(format_bytes(1572864), "1.50 MB");
    assert_eq!(format_bytes(1073741824), "1.00 GB");
    assert_eq!(format_bytes(1610612736), "1.50 GB");
}

#[test]
fn test_session_stats_formatting() {
    let mut manager = SessionManager::new(Duration::from_secs(60), 100);
    let session_id = SessionId(1024);
    let addr: SocketAddr = SocketAddr::new(IpAddr::v4(127, 0, 0, 1), 3000);

    manager.get_or_create(session_id, addr);
    manager.record_sent(session_id, 1024);
    manager.record_received(session_id, 2048);

    let stats = manager.aggregate_stats();
    let formatted = stats.format();

    assert!(formatted.contains("Sessions: 1"));
    assert!(formatted.contains("1.00 KB"));
    assert!(formatted.contains("2.00 KB"));
    assert!(formatted.contains("1 pkts"));
}

#[test]
fn test_now_ms_increments() {
    let clock = Clock::start();
    let t1 = clock.now_ms();
    pause(10);
    let t2 = clock.now_ms();

    assert!(t2 > t1);
    assert!(t2 - t1 >= 10);
}

#[test]
fn test_now_us_increments() {
    let clock = Clock::start();
    let t1 = clock.now_us();
    pause(10);
    let t2 = clock.now_us();

    assert!(t2 > t1);
    assert!(t2 - t1 >= 10000); // 10ms = 10000us
}

#[test]
fn test_session_manager_aggregate_stats_multiple() {
    let mut manager = SessionManager::new(Duration::from_secs(60), 100);

    let id1 = SessionId(1025);
    let id2 = SessionId(1026);
    let addr: SocketAddr = SocketAddr::new(IpAddr::v4(127, 0, 0, 1), 5000);

    manager.get_or_create(id1, addr);
    manager.get_or_create(id2, addr);

    manager.record_sent(id1, 1000);
    manager.record_sent(id2, 2000);
    manager.record_received(id1, 500);
    manager.record_received(id2, 1500);

    let stats = manager.aggregate_stats();
    assert_eq!(stats.session_count, 2);
    assert_eq!(stats.total_bytes_sent, 3000);
    assert_eq!(stats.total_bytes_received, 2000);
    assert_eq!(stats.total_packets_sent, 2);
    assert_eq!(stats.total_packets_received, 2);
}

#[test]
fn test_session_ipv6_address() {
    let mut manager = SessionManager::new(Duration::from_secs(60), 100);
    let session_id = SessionId(1027);
    let addr: SocketAddr = SocketAddr::new(IpAddr::V6(0x2001_0db8_0000_0000_0000_0000_0000_0001), 8080);

    assert!(manager.get_or_create(session_id, addr));
    assert_eq!(manager.get_client_addr(session_id), Some(addr));
}

#[test]
fn test_max_tracked_ips_limit() {
    // Create manager with small max_tracked_ips for testing
    let mut manager = SessionManager::new(Duration::from_secs(60), 1000);
    manager.set_max_tracked_ips(3); // Only allow 3 unique IPs

    // Create sessions from 3 different IPs - should succeed
    let id1 = SessionId(1028);
    let id2 = SessionId(1029);
    let id3 = SessionId(1030);

    let addr1: SocketAddr = SocketAddr::new(IpAddr::v4(192, 168, 1, 1), 1111);
    let addr2: SocketAddr = SocketAddr::new(IpAddr::v4(192, 168, 1, 2), 2222);
    let addr3: SocketAddr = SocketAddr::new(IpAddr::v4(192, 168, 1, 3), 3333);

    assert!(manager.get_or_create(id1, addr1));
    assert!(manager.get_or_create(id2, addr2));
    assert!(manager.get_or_create(id3, addr3));

    // 4th IP should be rejected - max tracked IPs reached
    let id4 = SessionId(1031);
    let addr4: SocketAddr = SocketAddr::new(IpAddr::v4(192, 168, 1, 4), 4444);
    assert!(!manager.get_or_create(id4, addr4));

    // But adding another session from existing IP should succeed
    let id5 = SessionId(1032);
    let addr1_new_port: SocketAddr = SocketAddr::new(IpAddr::v4(192, 168, 1, 1), 5555);
    assert!(manager.get_or_create(id5, addr1_new_port));
}

#[test]
fn test_max_tracked_ips_cleanup_allows_new() {
    // Create manager with small max_tracked_ips and short timeout
    let mut manager = SessionManager::new(Duration::from_millis(50), 1000);
    manager.set_max_tracked_ips(2);

    let id1 = SessionId(1033);
    let id2 = SessionId(1034);

    let addr1: SocketAddr = SocketAddr::new(IpAddr::v4(10, 0, 0, 1), 1111);
    let addr2: SocketAddr = SocketAddr::new(IpAddr::v4(10, 0, 0, 2), 2222);

    assert!(manager.get_or_create(id1, addr1));
    assert!(manager.get_or_create(id2, addr2));

    // 3rd IP rejected
    let id3 = SessionId(1035);
    let addr3: SocketAddr = SocketAddr::new(IpAddr::v4(10, 0, 0, 3), 3333);
    assert!(!manager.get_or_create(id3, addr3));

    // Wait for sessions to expire and cleanup
    pause(100);
    manager.cleanup_expired();

    // Now new IP should be allowed
    assert!(manager.get_or_create(id3, addr3));
}

#[test]
fn test_process_client_packet_roaming_blocked() {
    let mut manager = SessionManager::new(Duration::from_secs(60), 100);
    let session_id = SessionId(1036);
    let addr1: SocketAddr = SocketAddr::new(IpAddr::v4(192, 168, 10, 1), 5000);
    let addr2: SocketAddr = SocketAddr::new(IpAddr::v4(192, 168, 10, 2), 5001);

    // The relay only allows the bootstrap path to create new sessions.
    // Simulate that here so the data-plane call has a session to look up.
    assert!(manager.bind_established(session_id, addr1));

    let first = manager.process_client_packet(session_id, addr1, 512);
    assert_eq!(first, ClientPacketProcessResult::Forward { is_new: false });

    let second = manager.process_client_packet(session_id, addr2, 512);
    assert_eq!(second, ClientPacketProcessResult::RoamingBlocked);
}

#[test]
fn test_process_client_packet_rate_limited() {
    let mut manager = SessionManager::with_rate_limits(Duration::from_secs(60), 100, 2, 0);
    let session_id = SessionId(1037);
    let addr: SocketAddr = SocketAddr::new(IpAddr::v4(10, 10, 0, 5), 6000);

    assert!(manager.bind_established(session_id, addr));

    assert_eq!(
        manager.process_client_packet(session_id, addr, 128),
        ClientPacketProcessResult::Forward { is_new: false }
    );
    assert_eq!(
        manager.process_client_packet(session_id, addr, 128),
        ClientPacketProcessResult::Forward { is_new: false }
    );
    assert_eq!(
        manager.process_client_packet(session_id, addr, 128),
        ClientPacketProcessResult::RateLimited
    );
}

#[test]
fn test_bind_established_refuses_session_zero() {
    let mut manager = SessionManager::new(Duration::from_secs(60), 100);
    let addr: SocketAddr = SocketAddr::new(IpAddr::v4(192, 168, 10, 1), 5000);
    assert!(!manager.bind_established(SessionId(0), addr));
}

#[test]
fn test_process_client_packet_refuses_session_zero() {
    let mut manager = SessionManager::new(Duration::from_secs(60), 100);
    let addr: SocketAddr = SocketAddr::new(IpAddr::v4(192, 168, 10, 1), 5000);
    assert_eq!(
        manager.process_client_packet(SessionId(0), addr, 128),
        ClientPacketProcessResult::SessionRejected
    );
}

#[test]
fn test_process_client_packet_refuses_unknown_session() {
    let mut manager = SessionManager::new(Duration::from_secs(60), 100);
    let session_id = SessionId(1038);
    let addr: SocketAddr = SocketAddr::new(IpAddr::v4(192, 168, 10, 1), 5000);
    // No bind_established — the relay must refuse the data packet rather
    // than installing the attacker's address as the session's bound peer.
    assert_eq!(
        manager.process_client_packet(session_id, addr, 128),
        ClientPacketProcessResult::SessionRejected
    );
}

#[test]
fn buckets_refill_up_to_two_seconds() {
    let clock = Clock::start();
    let mut limiter = RateLimiter::new_at(10, 0, clock, 0);
    for _ in 0..10 {
        assert!(limiter.check_at(1, 500));
    }
    assert!(!limiter.check_at(1, 999));
    // Half a second brings five more.
    for _ in 0..5 {
        assert!(limiter.check_at(1, 500_000));
    }
    assert!(!limiter.check_at(1, 500_000));
    // An hour brings no more than two seconds' worth.
    assert!(limiter.check_at(1, 3_600_000_000));
    assert_eq!(limiter.packet_tokens, 19);
}

#[test]
fn refused_bytes_cost_no_packet() {
    let clock = Clock::start();
    let mut limiter = RateLimiter::new_at(10, 100, clock, 0);
    assert!(!limiter.check_at(101, 10));
    assert_eq!(limiter.packet_tokens, 10);
    assert_eq!(limiter.byte_tokens, 100);
    assert!(limiter.check_at(100, 10));
    assert_eq!(limiter.packet_tokens, 9);
    assert_eq!(limiter.byte_tokens, 0);
}

#[test]
fn refill_rounds_like_double_precision() {
    // The exact product is a little below 29; the nearest double is below it too.
    for (rate, us) in [(29u64, 1_000_000u64), (100, 290_000), (1_000_000_007, 333_333), (3, 999_999)] {
        let expected = (rate as f64 * (us as f64 / 1_000_000.0)) as u64;
        assert_eq!(hpn::rounding::scale_by_seconds(rate, us), expected);
    }
}

#[test]
fn large_rates_round_like_double_precision() {
    let mut rate: u64 = 1;
    let mut us: u64 = 1003;
    for _ in 0..200 {
        let expected = (rate as f64 * (us as f64 / 1_000_000.0)) as u64;
        assert_eq!(hpn::rounding::scale_by_seconds(rate, us), expected, "{} {}", rate, us);
        rate = rate.wrapping_mul(6364136223846793005).wrapping_add(1442695040888963407);
        us = us.wrapping_mul(2862933555777941757).wrapping_add(3037000493) | 1;
    }
}

#[test]
fn byte_counts_round_half_to_even() {
    for n in [1029u64, 1034, 1039, 1_048_575, 5_242_881, 123_456_789_012, u64::MAX, u64::MAX - 5000] {
        let expected = if n >= 1 << 30 {
            format!("{:.2} GB", n as f64 / (1u64 << 30) as f64)
        } else if n >= 1 << 20 {
            format!("{:.2} MB", n as f64 / (1u64 << 20) as f64)
        } else {
            format!("{:.2} KB", n as f64 / 1024.0)
        };
        assert_eq!(format_bytes(n), expected);
    }
}

#[test]
fn removal_gives_the_place_back() {
    let mut manager = SessionManager::new(Duration::from_secs(60), 1);
    let addr = SocketAddr::new(IpAddr::v4(10, 0, 0, 1), 1);
    assert!(manager.bind_established_at(SessionId(7), addr, 0));
    assert!(!manager.bind_established_at(SessionId(8), addr, 0));
    let removed = manager.remove(SessionId(7)).unwrap();
    assert_eq!(removed.client_addr, addr);
    assert!(manager.remove(SessionId(7)).is_none());
    assert!(manager.bind_established_at(SessionId(8), addr, 0));
}

#[test]
fn one_address_has_a_hundred_sessions_at_most() {
    let mut manager = SessionManager::new(Duration::from_secs(60), 1000);
    let addr = SocketAddr::new(IpAddr::v4(10, 0, 0, 1), 1);
    for i in 1..=100 {
        assert!(manager.bind_established_at(SessionId(i), addr, 0));
    }
    assert!(!manager.bind_established_at(SessionId(101), addr, 0));
    let other = SocketAddr::new(IpAddr::v4(10, 0, 0, 2), 1);
    assert!(manager.bind_established_at(SessionId(101), other, 0));
    manager.remove(SessionId(1));
    assert!(manager.bind_established_at(SessionId(102), addr, 0));
}

#[test]
fn a_full_table_drops_expired_sessions_first() {
    let mut manager = SessionManager::new(Duration::from_millis(50), 1);
    let addr = SocketAddr::new(IpAddr::v4(10, 0, 0, 1), 1);
    assert!(manager.bind_established_at(SessionId(1), addr, 0));
    assert!(!manager.bind_established_at(SessionId(2), addr, 50_000_000));
    assert!(manager.bind_established_at(SessionId(2), addr, 51_000_000));
    assert_eq!(manager.get_client_addr(SessionId(1)), None);
    assert_eq!(manager.cleanup_expired_at(60_000_000), 0);
    assert_eq!(manager.cleanup_expired_at(200_000_000), 1);
}

#[test]
fn upstream_packets_find_their_client() {
    let mut manager = SessionManager::with_rate_limits(Duration::from_secs(60), 10, 2, 0);
    let addr = SocketAddr::new(IpAddr::v4(10, 0, 0, 1), 1);
    assert_eq!(manager.process_upstream_packet_at(SessionId(1), 10, 5_000), None);
    assert!(!manager.check_upstream_rate_limit_at(SessionId(1), 10, 5_000));
    assert!(manager.bind_established_at(SessionId(1), addr, 0));
    assert_eq!(manager.process_upstream_packet_at(SessionId(1), 10, 5_000), Some(addr));
    assert!(manager.check_upstream_rate_limit_at(SessionId(1), 10, 5_000));
    assert!(manager.check_upstream_rate_limit_at(SessionId(1), 10, 5_000));
    assert!(!manager.check_upstream_rate_limit_at(SessionId(1), 10, 5_000));
    let all = manager.all_stats_at(2_500_000_000);
    assert_eq!(all.len(), 1);
    assert_eq!(all[0].bytes_received, 10);
    assert_eq!(all[0].age, Duration { secs: 2, nanos: 500_000_000 });
}
