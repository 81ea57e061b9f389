//! The admin API.

use hpn::net::{IpAddr, SocketAddr};
use hpn::server::admin::{
    constant_time_eq, find_route, handle_delete_session, handle_get_session, handle_health,
    handle_list_sessions, handle_request, handle_request_at, handle_stats, parse_session_id, rate_limit_response,
    reply_without_sessions, session_info, Access, AdminContext, AdminRateLimiter, AdminReply,
    AdminRoute, Method, SessionSnapshot,
};
use hpn::server::config::ServerConfig;
use hpn::server::metrics::ServerMetrics;

fn test_ip(last_octet: u8) -> IpAddr {
    IpAddr::v4(192, 168, 1, last_octet)
}

#[test]
fn test_constant_time_eq() {
    // SECURITY TEST: Constant-time comparison for API tokens
    // This test validates:
    // - constant_time_eq() correctly compares equal strings
    // - constant_time_eq() correctly rejects different strings
    // - Length mismatches are detected
    // - Empty strings are handled correctly

    // Equal strings
    assert!(constant_time_eq(b"secret123", b"secret123"));
    assert!(constant_time_eq(b"", b""));

    // Different strings (same length)
    assert!(!constant_time_eq(b"secret123", b"secret124"));
    assert!(!constant_time_eq(b"aaaaaaa", b"aaaaaab"));

    // Different lengths
    assert!(!constant_time_eq(b"short", b"longer_string"));
    assert!(!constant_time_eq(b"longer_string", b"short"));

    // Single character difference
    assert!(!constant_time_eq(b"password", b"passwOrd"));

    // Complex tokens (realistic API tokens)
    let token1 = b"hpn_sk_1234567890abcdef1234567890abcdef";
    let token2 = b"hpn_sk_1234567890abcdef1234567890abcdef";
    let token3 = b"hpn_sk_1234567890abcdef1234567890abcdeg"; // Last char different

    assert!(constant_time_eq(token1, token2));
    assert!(!constant_time_eq(token1, token3));
}

#[test]
fn test_admin_rate_limiter_basic() {
    // SECURITY TEST: Admin API rate limiting
    // This test validates:
    // - Requests are allowed up to the limit
    // - Requests are rejected after the limit is exceeded
    // - Different IPs have independent limits

    let mut limiter = AdminRateLimiter::with_limit(3);
    let ip = test_ip(1);

    // First 3 requests should be allowed
    assert!(limiter.allow(ip), "Request 1 should be allowed");
    assert!(limiter.allow(ip), "Request 2 should be allowed");
    assert!(limiter.allow(ip), "Request 3 should be allowed");

    // 4th request should be rate limited
    assert!(!limiter.allow(ip), "Request 4 should be rate limited");
    assert!(!limiter.allow(ip), "Request 5 should be rate limited");
}

#[test]
fn test_admin_rate_limiter_different_ips() {
    let mut limiter = AdminRateLimiter::with_limit(2);
    let ip1 = test_ip(1);
    let ip2 = test_ip(2);

    // Both IPs should have independent limits
    assert!(limiter.allow(ip1));
    assert!(limiter.allow(ip1));
    assert!(!limiter.allow(ip1)); // Rate limited

    // IP2 should still be allowed
    assert!(limiter.allow(ip2));
    assert!(limiter.allow(ip2));
    assert!(!limiter.allow(ip2)); // Rate limited
}

#[test]
fn test_admin_rate_limiter_tracked_ips() {
    let mut limiter = AdminRateLimiter::with_limit(10);

    assert_eq!(limiter.tracked_ips(), 0);

    limiter.allow(test_ip(1));
    assert_eq!(limiter.tracked_ips(), 1);

    limiter.allow(test_ip(2));
    assert_eq!(limiter.tracked_ips(), 2);

    limiter.allow(test_ip(1)); // Same IP
    assert_eq!(limiter.tracked_ips(), 2);
}

#[test]
fn test_admin_rate_limiter_remaining() {
    let mut limiter = AdminRateLimiter::with_limit(5);
    let ip = test_ip(1);

    // Before any requests, IP is not tracked
    assert_eq!(limiter.remaining(ip), None);

    // After first request
    assert!(limiter.allow(ip));
    assert_eq!(limiter.remaining(ip), Some(4));

    // After more requests
    assert!(limiter.allow(ip));
    assert!(limiter.allow(ip));
    assert_eq!(limiter.remaining(ip), Some(2));

    // At limit
    assert!(limiter.allow(ip));
    assert!(limiter.allow(ip));
    assert_eq!(limiter.remaining(ip), Some(0));

    // Past limit (still shows 0)
    assert!(!limiter.allow(ip));
    assert_eq!(limiter.remaining(ip), Some(0));
}

#[test]
fn windows_of_admin_requests_begin_anew() {
    let mut limiter = AdminRateLimiter::with_limit(2);
    assert!(limiter.allow_at(test_ip(1), 1_000_000_000));
    assert!(limiter.allow_at(test_ip(1), 61_000_000_000));
    assert!(!limiter.allow_at(test_ip(1), 61_000_000_000));
    assert_eq!(limiter.remaining_at(test_ip(1), 61_000_000_001), Some(2));
    assert!(limiter.allow_at(test_ip(1), 61_000_000_001));
    assert_eq!(limiter.remaining_at(test_ip(1), 61_000_000_001), Some(1));
    let mut none = AdminRateLimiter::with_limit(0);
    assert!(!none.allow_at(test_ip(1), 1_000_000_000));
    assert!(!none.allow_at(test_ip(1), 100_000_000_000));
}

#[test]
fn test_admin_rate_limiter_default() {
    let mut limiter = AdminRateLimiter::default();
    let ip = test_ip(1);

    // Default is 100 per minute
    for _ in 0..100 {
        assert!(limiter.allow(ip));
    }
    assert!(!limiter.allow(ip));
}

#[test]
fn test_admin_rate_limiter_cleanup() {
    let mut limiter = AdminRateLimiter::with_limit(10);

    // Add multiple IPs
    for i in 1..=10 {
        limiter.allow(test_ip(i));
    }
    assert_eq!(limiter.tracked_ips(), 10);

    // Manual cleanup shouldn't remove entries in current window
    limiter.cleanup();
    assert_eq!(limiter.tracked_ips(), 10);
}

#[test]
fn test_admin_rate_limiter_ipv6() {
    let mut limiter = AdminRateLimiter::with_limit(2);
    let ipv6 = IpAddr::V6(0x2001_0db8_0000_0000_0000_0000_0000_0001);

    assert!(limiter.allow(ipv6));
    assert!(limiter.allow(ipv6));
    assert!(!limiter.allow(ipv6)); // Rate limited
}

#[test]
fn test_rate_limit_response() {
    let response = rate_limit_response();

    assert_eq!(response.status(), 429);
    assert_eq!(response.retry_after(), Some(60));
    assert_eq!(response.content_type(), Some("application/json"));
}

fn snapshot(id: u64) -> SessionSnapshot {
    SessionSnapshot {
        session_id: id,
        client_addr: SocketAddr::new(IpAddr::v4(192, 168, 1, 100), 12345),
        tunnel_ip: 0x0a63_0005,
        tunnel_ipv6: Some(0xfd99_0000_0000_0000_0000_0000_0000_0005),
        duration_secs: 3600,
        idle_secs: 30,
        bytes_sent: 1_000_000,
        bytes_received: 500_000,
    }
}

#[test]
fn sessions_are_described() {
    let info = session_info(&snapshot(0xabc123));
    assert_eq!(info.session_id, "abc123");
    assert_eq!(info.client_addr, "192.168.1.100:12345");
    assert_eq!(info.tunnel_ip, "10.99.0.5");
    assert_eq!(info.tunnel_ipv6.as_deref(), Some("fd99::5"));
    assert_eq!(info.duration_secs, 3600);
    let mut plain = snapshot(1);
    plain.tunnel_ipv6 = None;
    match handle_list_sessions(&vec![snapshot(0xabc123), plain]) {
        AdminReply::Sessions(list) => {
            assert_eq!(list.count, 2);
            assert_eq!(list.sessions.len(), 2);
            assert_eq!(list.sessions[0].session_id, "abc123");
            assert_eq!(list.sessions[1].tunnel_ipv6, None);
        }
        _ => panic!("a list was asked for"),
    }
}

fn error_of(reply: AdminReply) -> (u16, String) {
    let status = reply.status();
    match reply {
        AdminReply::Error(_, e) => (status, e.error),
        _ => panic!("an error was expected"),
    }
}

#[test]
fn sessions_are_found_and_removed_by_id() {
    assert_eq!(parse_session_id("ff"), Some(255));
    assert_eq!(parse_session_id("+FF"), Some(255));
    assert_eq!(parse_session_id("ffffffffffffffff"), Some(u64::MAX));
    assert_eq!(parse_session_id("10000000000000000"), None);
    assert_eq!(parse_session_id(""), None);
    assert_eq!(parse_session_id("+"), None);
    assert_eq!(parse_session_id("xyz"), None);
    assert_eq!(
        error_of(handle_get_session(None, None)),
        (400, "Invalid session ID format".to_string())
    );
    assert_eq!(
        error_of(handle_get_session(Some(1), None)),
        (404, "Session not found".to_string())
    );
    match handle_get_session(Some(1), Some(&snapshot(1))) {
        AdminReply::Session(i) => assert_eq!(i.session_id, "1"),
        _ => panic!("a session was asked for"),
    }
    assert_eq!(
        error_of(handle_delete_session(None, false)),
        (400, "Invalid session ID format".to_string())
    );
    assert_eq!(
        error_of(handle_delete_session(Some(1), false)),
        (404, "Session not found".to_string())
    );
    let gone = handle_delete_session(Some(1), true);
    assert_eq!((gone.status(), gone.content_type(), gone.retry_after()), (204, None, None));
}

#[test]
fn statistics_and_health_come_from_the_metrics() {
    let mut metrics = ServerMetrics::new();
    metrics.record_bytes(10, 20);
    metrics.record_handshake(true);
    metrics.record_session_created();
    let stats = handle_stats(&metrics, 86400);
    assert_eq!(stats.uptime_secs, 86400);
    assert_eq!(stats.bytes_sent, 10);
    assert_eq!(stats.bytes_received, 20);
    assert_eq!(stats.handshakes_success, 1);
    assert_eq!(stats.sessions_active, 1);
    let health = handle_health(&metrics, 5);
    assert_eq!(health.status, "healthy");
    assert_eq!((health.uptime_secs, health.sessions_active), (5, 1));
}

#[test]
fn paths_lead_where_they_should() {
    let get = |p: &str| find_route(Method::Get, p, true);
    assert_eq!(get("/api/sessions"), AdminRoute::List);
    assert_eq!(get("/api/sessions/1f"), AdminRoute::Show(Some(31)));
    assert_eq!(get("/api/sessions/"), AdminRoute::Show(None));
    assert_eq!(get("/api/stats"), AdminRoute::Stats);
    assert_eq!(get("/api/health"), AdminRoute::Health);
    assert_eq!(get("/health"), AdminRoute::Health);
    assert_eq!(get("/metrics"), AdminRoute::Metrics);
    assert_eq!(get("/"), AdminRoute::Index);
    assert_eq!(get("/api"), AdminRoute::Index);
    assert_eq!(get("/api/sessionsx"), AdminRoute::NotFound);
    assert_eq!(find_route(Method::Get, "/metrics", false), AdminRoute::NotFound);
    assert_eq!(
        find_route(Method::Delete, "/api/sessions/1f", true),
        AdminRoute::Terminate(Some(31))
    );
    assert_eq!(find_route(Method::Delete, "/api/stats", true), AdminRoute::NotFound);
    assert_eq!(find_route(Method::Post, "/api/sessions", true), AdminRoute::NotFound);
}

const TOKEN: &str = "sufficiently-long-32-byte-token!";

#[test]
fn a_plain_token_opens_the_api() {
    let ctx = AdminContext::with_token(true, Some(TOKEN.to_string()));
    let good = format!("Bearer {}", TOKEN);
    assert!(ctx.check_auth(Some(&good)));
    assert!(!ctx.check_auth(Some("Bearer wrong")));
    assert!(!ctx.check_auth(Some(TOKEN)));
    assert!(!ctx.check_auth(Some(&format!("bearer {}", TOKEN))));
    assert!(!ctx.check_auth(None));
    assert_eq!(ctx.check_access(Method::Get, "/api/stats", Some(&good)), Access::Granted);
    assert_eq!(ctx.check_access(Method::Get, "/api/stats", None), Access::Unauthorized);
    assert_eq!(ctx.check_access(Method::Get, "/nowhere", None), Access::Unauthorized);
    assert_eq!(ctx.check_access(Method::Get, "/health", None), Access::Granted);
}

#[test]
fn a_hashed_token_opens_the_api_and_takes_priority() {
    // The SHA-256 of "abc".
    let digest = "ba7816bf8f01cfea414140de5dae2223b00361a396177a9cb410ff61f20015ad";
    let mut ctx = AdminContext::with_token_hash(false, &format!(" {}\n", digest)).unwrap();
    assert!(ctx.check_auth(Some("Bearer abc")));
    assert!(!ctx.check_auth(Some("Bearer abd")));
    assert!(!ctx.check_auth(Some(&format!("Bearer {}", digest))));
    assert_eq!(ctx.check_access(Method::Get, "/api/stats", Some("Bearer abc")), Access::Granted);
    assert_eq!(ctx.check_access(Method::Get, "/api/stats", None), Access::Unauthorized);
    ctx.api_token = Some(TOKEN.to_string());
    assert!(ctx.check_auth(Some("Bearer abc")));
    assert!(!ctx.check_auth(Some(&format!("Bearer {}", TOKEN))));
    assert!(AdminContext::with_token_hash(false, &digest.to_uppercase()).is_ok());
}

#[test]
fn bad_digests_are_refused() {
    let refused = |t: &str| AdminContext::with_token_hash(false, t).unwrap_err();
    assert_eq!(refused("abc"), "admin_api_token_sha256 must be hex: Odd number of digits");
    assert_eq!(
        refused("zz"),
        "admin_api_token_sha256 must be hex: Invalid character 'z' at position 0"
    );
    assert_eq!(refused("abcd"), "admin_api_token_sha256 must decode to exactly 32 bytes, got 2");
    assert_eq!(refused(""), "admin_api_token_sha256 must decode to exactly 32 bytes, got 0");
}

#[test]
fn without_a_token_nothing_is_revealed() {
    let ctx = AdminContext::new(true);
    assert!(ctx.check_auth(None));
    for path in ["/api/sessions", "/api/sessions/1", "/api/stats", "/metrics"] {
        assert_eq!(ctx.check_access(Method::Get, path, None), Access::NotConfigured, "{}", path);
    }
    assert_eq!(ctx.check_access(Method::Delete, "/anything", None), Access::NotConfigured);
    assert_eq!(ctx.check_access(Method::Patch, "/anything", None), Access::NotConfigured);
    assert_eq!(ctx.check_access(Method::Get, "/anything", None), Access::Granted);
    assert_eq!(ctx.check_access(Method::Delete, "/", None), Access::Granted);
}

#[test]
fn requests_are_limited_then_checked_then_routed() {
    let ctx = AdminContext::with_token(true, Some(TOKEN.to_string()));
    let mut limiter = AdminRateLimiter::with_limit(2);
    let good = format!("Bearer {}", TOKEN);
    let ip = test_ip(9);
    let mut ask = |auth: Option<&str>, now: u128| {
        handle_request_at(&ctx, &mut limiter, ip, now, Method::Get, "/metrics", auth)
    };
    assert_eq!(ask(None, 1), AdminRoute::Unauthorized);
    assert_eq!(ask(Some(&good), 2), AdminRoute::Metrics);
    assert_eq!(ask(Some(&good), 3), AdminRoute::Limited);
    assert_eq!(ask(Some(&good), 60_000_000_002), AdminRoute::Metrics);
    let mut limiter = AdminRateLimiter::with_limit(1);
    let path = "/api/health";
    let first = handle_request(&ctx, &mut limiter, ip, Method::Get, path, None);
    assert_eq!(first, AdminRoute::Health);
    let second = handle_request(&ctx, &mut limiter, ip, Method::Get, path, None);
    assert_eq!(second, AdminRoute::Limited);
}

#[test]
fn windows_of_admin_requests_end() {
    let mut limiter = AdminRateLimiter::with_limit(1);
    assert!(limiter.allow_at(test_ip(1), 0));
    assert!(!limiter.allow_at(test_ip(1), 60_000_000_000));
    assert_eq!(limiter.remaining_at(test_ip(1), 60_000_000_000), Some(0));
    assert_eq!(limiter.remaining_at(test_ip(1), 60_000_000_001), Some(1));
    limiter.cleanup_at(60_000_000_000);
    assert_eq!(limiter.tracked_ips(), 1);
    limiter.cleanup_at(60_000_000_001);
    assert_eq!(limiter.tracked_ips(), 0);
}

#[test]
fn replies_say_what_they_should() {
    let metrics = ServerMetrics::new();
    let reply = |r: AdminRoute| reply_without_sessions(r, &metrics, 4);
    assert!(reply(AdminRoute::List).is_none());
    assert!(reply(AdminRoute::Show(Some(1))).is_none());
    assert!(reply(AdminRoute::Terminate(None)).is_none());
    assert_eq!(reply(AdminRoute::Limited).unwrap().status(), 429);
    assert_eq!(
        error_of(reply(AdminRoute::Unauthorized).unwrap()),
        (401, "Authentication required. Provide Authorization: Bearer <token>".to_string())
    );
    assert_eq!(
        error_of(reply(AdminRoute::NotConfigured).unwrap()),
        (403, "Admin API token not configured. Set 'admin_api_token' in server config.".to_string())
    );
    assert_eq!(
        error_of(reply(AdminRoute::NotFound).unwrap()),
        (404, "Not Found".to_string())
    );
    match reply(AdminRoute::Metrics).unwrap() {
        AdminReply::Text(kind, body) => {
            assert_eq!(kind, "text/plain; version=0.0.4; charset=utf-8");
            assert_eq!(body, metrics.export_prometheus_at(4));
        }
        _ => panic!("metrics were asked for"),
    }
    match reply(AdminRoute::Index).unwrap() {
        AdminReply::Text(kind, body) => {
            assert_eq!(kind, "application/json");
            assert!(body.starts_with("{\n  \"name\": \"HPN VPN Server Admin API\",\n"));
            assert!(body.ends_with("\"metrics\": \"/metrics\"\n  }\n}"));
        }
        _ => panic!("the index was asked for"),
    }
    match reply(AdminRoute::Stats).unwrap() {
        AdminReply::Stats(s) => assert_eq!(s.uptime_secs, 4),
        _ => panic!("statistics were asked for"),
    }
    match reply(AdminRoute::Health).unwrap() {
        AdminReply::Health(h) => assert_eq!(h.status, "healthy"),
        _ => panic!("health was asked for"),
    }
}

#[test]
fn contexts_follow_the_configuration() {
    let mut config = ServerConfig::default();
    config.enable_metrics = true;
    let c = AdminContext::from_config(&config).unwrap();
    assert!(c.enable_metrics && c.api_token.is_none() && c.api_token_sha256.is_none());
    config.admin_api_token = Some("plain".to_string());
    let c = AdminContext::from_config(&config).unwrap();
    assert!(c.check_auth(Some("Bearer plain")));
    // SHA-256 of "abc".
    config.admin_api_token_sha256 =
        Some("ba7816bf8f01cfea414140de5dae2223b00361a396177a9cb410ff61f20015ad".to_string());
    let c = AdminContext::from_config(&config).unwrap();
    assert!(c.check_auth(Some("Bearer abc")));
    assert!(!c.check_auth(Some("Bearer plain")));
    config.admin_api_token_sha256 = Some("xyz".to_string());
    assert!(AdminContext::from_config(&config).is_err());
}
