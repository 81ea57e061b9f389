//! The server's configuration.

use hpn::net::{IpAddr, SocketAddr};
use hpn::server::auto_tune::{SystemCapabilities, SystemProbe};
use hpn::server::config::{sanitize_toml_error, ServerConfig};
use hpn::time::Duration;

#[test]
fn test_parse_ipv4_pool() {
    let config = ServerConfig::default();
    let (base, prefix) = config.parse_ipv4_pool().unwrap();
    assert_eq!(base, [10, 99, 0, 0]);
    assert_eq!(prefix, 24);
}

#[test]
fn test_parse_server_tunnel_ip() {
    let config = ServerConfig::default();
    let ip = config.parse_server_tunnel_ip().unwrap();
    assert_eq!(ip, [10, 99, 0, 1]);
}

#[test]
fn config_test_default_config() {
    let config = ServerConfig::default();
    assert_eq!(config.listen_addr.to_text(), "0.0.0.0:51820");
    assert_eq!(config.ipv4_pool, "10.99.0.0/24");
    assert_eq!(config.server_tunnel_ip, "10.99.0.1");
    assert_eq!(config.tun_name, "hpn0");
    assert_eq!(config.mtu, 1420);
    assert!(config.log_enabled);
}

#[test]
fn test_get_max_sessions_auto() {
    let config = ServerConfig::default();
    // /24 = 254 usable IPs
    assert_eq!(config.get_max_sessions(), 254);
}

#[test]
fn test_get_max_sessions_explicit() {
    let mut config = ServerConfig::default();
    config.max_sessions = Some(100);
    assert_eq!(config.get_max_sessions(), 100);
}

#[test]
fn config_test_session_timeout() {
    let config = ServerConfig::default();
    assert_eq!(config.session_timeout(), Duration::from_secs(180));
}

#[test]
fn test_keepalive_interval() {
    let config = ServerConfig::default();
    assert_eq!(config.keepalive_interval(), Duration::from_secs(25));
}

#[test]
fn test_validate_ok() {
    let config = ServerConfig::default();
    assert!(config.validate().is_ok());
}

#[test]
fn test_validate_server_ip_not_in_pool() {
    let mut config = ServerConfig::default();
    config.server_tunnel_ip = "192.168.1.1".into();
    assert!(config.validate().is_err());
}

#[test]
fn test_validate_invalid_mtu() {
    let mut config = ServerConfig::default();
    config.mtu = 100;
    assert!(config.validate().is_err());
}

#[test]
fn test_validate_require_auth_without_db_path_uses_default() {
    let mut config = ServerConfig::default();
    config.require_auth = true;
    config.users_db_path = None;
    assert!(config.validate().is_ok());
    assert_eq!(
        config.users_db_path_or_default(),
        ServerConfig::DEFAULT_USERS_DB_PATH.to_string()
    );
}

#[test]
fn test_validate_rejects_metrics_non_loopback_without_admin_api() {
    // enable_metrics + non-loopback bind + admin API
    // disabled (= no auth path) MUST fail validation.
    let mut config = ServerConfig::default();
    config.enable_metrics = true;
    config.metrics_addr = SocketAddr::new(IpAddr::v4(0, 0, 0, 0), 9100);
    config.enable_admin_api = false;
    let err = config
        .validate()
        .expect_err("non-loopback metrics without admin API must fail");
    let msg = err.message();
    assert!(
        msg.contains("metrics_addr") && msg.contains("loopback"),
        "error must mention metrics_addr + loopback, got: {msg}"
    );
}

#[test]
fn test_validate_rejects_metrics_non_loopback_admin_api_no_token() {
    // Even with admin API enabled, the token must be set and >=24
    // chars; otherwise the auth path is open.
    let mut config = ServerConfig::default();
    config.enable_metrics = true;
    config.metrics_addr = SocketAddr::new(IpAddr::v4(0, 0, 0, 0), 9100);
    config.enable_admin_api = true;
    config.admin_api_token = None;
    assert!(config.validate().is_err());
}

#[test]
fn test_validate_rejects_metrics_non_loopback_admin_api_short_token() {
    let mut config = ServerConfig::default();
    config.enable_metrics = true;
    config.metrics_addr = SocketAddr::new(IpAddr::v4(0, 0, 0, 0), 9100);
    config.enable_admin_api = true;
    // 23 chars — one below the 24-char floor.
    config.admin_api_token = Some("x".repeat(23));
    assert!(config.validate().is_err());
}

#[test]
fn test_validate_accepts_metrics_loopback_without_admin_api() {
    // 127.0.0.1 is the safe-by-default deployment.
    let mut config = ServerConfig::default();
    config.enable_metrics = true;
    config.metrics_addr = SocketAddr::new(IpAddr::v4(127, 0, 0, 1), 9100);
    config.enable_admin_api = false;
    assert!(config.validate().is_ok());
}

#[test]
fn test_validate_accepts_metrics_non_loopback_with_admin_api_token() {
    // The supported "remote scraping" path: bind anywhere AND
    // serve through an authenticated admin endpoint.
    let mut config = ServerConfig::default();
    config.enable_metrics = true;
    config.metrics_addr = SocketAddr::new(IpAddr::v4(0, 0, 0, 0), 9100);
    config.enable_admin_api = true;
    config.admin_api_token = Some("sufficiently-long-32-byte-token!".into());
    assert!(config.validate().is_ok());
}

#[test]
fn config_test_validate_accepts_disabled_metrics_regardless_of_addr() {
    let mut config = ServerConfig::default();
    config.enable_metrics = false;
    config.metrics_addr = SocketAddr::new(IpAddr::v4(0, 0, 0, 0), 9100);
    config.enable_admin_api = false;
    assert!(config.validate().is_ok());
}

fn complaint(change: impl Fn(&mut ServerConfig)) -> String {
    let mut c = ServerConfig::default();
    change(&mut c);
    let text = c.validate().unwrap_err().message();
    text.strip_prefix("configuration error: ").unwrap().to_string()
}

#[test]
fn every_network_rule_has_its_complaint() {
    let pool = |p: &str| {
        let p = p.to_string();
        complaint(move |c| c.ipv4_pool = p.clone())
    };
    assert_eq!(pool("10.0.0.0"), "invalid IPv4 pool format: 10.0.0.0");
    assert_eq!(pool("10.0.0/24"), "invalid IPv4 address: 10.0.0");
    assert_eq!(pool("10.0.256.0/24"), "invalid IPv4 octet: 256");
    assert_eq!(pool("10.0.0.0/x"), "invalid prefix length: x");
    assert_eq!(pool("10.0.0.0/0"), "IPv4 prefix length must be in 1..=32, got 0");
    assert_eq!(pool("10.0.0.0/33"), "IPv4 prefix length must be in 1..=32, got 33");
    assert_eq!(pool("10.0.0.0/15"), "prefix must be between 16 and 30, got 15");
    assert_eq!(pool("10.0.0.0/31"), "prefix must be between 16 and 30, got 31");
    assert_eq!(pool("10.98.0.0/16"), "server tunnel IP 10.99.0.1 is not in pool 10.98.0.0/16");
    assert_eq!(
        complaint(|c| c.server_tunnel_ip = "10.99.0".to_string()),
        "invalid server tunnel IP: 10.99.0"
    );
    assert_eq!(
        complaint(|c| c.server_tunnel_ip = "10.99.0.".to_string()),
        "invalid IP octet: "
    );
    assert_eq!(
        complaint(|c| c.dns_servers = vec!["1.1.1.1".to_string(), "8.8".to_string()]),
        "invalid DNS server: 8.8"
    );
    assert_eq!(
        complaint(|c| c.dns_servers = vec!["1.1.1.-1".to_string(), "8.8".to_string()]),
        "invalid DNS octet: -1"
    );
}

#[test]
fn every_ipv6_rule_has_its_complaint() {
    let with = |pool: &str, own: Option<&str>| {
        let pool = pool.to_string();
        let own = own.map(|s| s.to_string());
        complaint(move |c| {
            c.ipv6_pool = Some(pool.clone());
            c.server_tunnel_ipv6 = own.clone();
        })
    };
    assert_eq!(with("fd99::", None), "invalid IPv6 pool format: fd99::");
    assert_eq!(with("fd99:::/64", None), "invalid IPv6 address: fd99:::");
    assert_eq!(with("fd99::/256", None), "invalid IPv6 prefix: 256");
    assert_eq!(with("fd99::/47", None), "IPv6 prefix must be between 48 and 128, got 47");
    assert_eq!(with("fd99::/129", None), "IPv6 prefix must be between 48 and 128, got 129");
    assert_eq!(
        with("fd99::/64", None),
        "ipv6_pool configured but server_tunnel_ipv6 is missing"
    );
    assert_eq!(with("fd99::/64", Some("x")), "invalid IPv6 address: x");
    assert_eq!(
        with("fd99::/64", Some("fd98::1")),
        "server tunnel IPv6 fd98::1 is not in pool Some(\"fd99::/64\")"
    );
    let mut c = ServerConfig::default();
    c.ipv6_pool = Some("fd99::/64".to_string());
    c.server_tunnel_ipv6 = Some("fd99::1".to_string());
    c.dns_servers_v6 = vec!["2606:4700:4700::1111".to_string()];
    assert!(c.validate().is_ok());
    assert!(c.has_ipv6());
    assert_eq!(c.parse_ipv6_pool().unwrap().unwrap().1, 64);
    let mut expected = [0u8; 16];
    expected[0] = 0xfd;
    expected[1] = 0x99;
    assert_eq!(c.parse_ipv6_pool().unwrap().unwrap().0, expected);
    expected[15] = 1;
    assert_eq!(c.parse_server_tunnel_ipv6().unwrap().unwrap(), expected);
    assert_eq!(c.parse_dns_servers_v6().unwrap()[0][..4], [0x26, 0x06, 0x47, 0x00]);
    c.dns_servers_v6.push("1.1.1.1".to_string());
    assert_eq!(
        c.validate().unwrap_err().message(),
        "configuration error: invalid IPv6 DNS server: 1.1.1.1"
    );
}

#[test]
fn every_limit_has_its_complaint() {
    assert_eq!(complaint(|c| c.mtu = 575), "MTU must be at least 576, got 575");
    assert_eq!(complaint(|c| c.mtu = 9001), "MTU must be at most 9000, got 9001");
    assert_eq!(complaint(|c| c.session_timeout_secs = 0), "session_timeout_secs must be > 0");
    assert_eq!(complaint(|c| c.keepalive_interval_secs = 0), "keepalive_interval_secs must be > 0");
    assert_eq!(
        complaint(|c| {
            c.log_file = Some("x".to_string());
            c.log_max_size_mb = 0;
        }),
        "log_max_size_mb must be >= 1 when log_file is set"
    );
    assert_eq!(
        complaint(|c| {
            c.log_file = Some("x".to_string());
            c.log_max_files = 0;
        }),
        "log_max_files must be >= 1 when log_file is set"
    );
    assert_eq!(
        complaint(|c| c.min_security_level = "LEVEL4".to_string()),
        "min_security_level must be 'level3' or 'level5', got 'level4'"
    );
    assert_eq!(
        complaint(|c| c.max_sessions = Some(255)),
        "max_sessions (255) exceeds available IPs in pool (254)"
    );
    assert_eq!(
        complaint(|c| {
            c.enable_admin_api = true;
            c.admin_api_token = Some(" short ".to_string());
        }),
        "admin_api_token is too short (5 chars); must be at least 24 chars. Use `openssl rand -base64 32` to generate a strong token."
    );
    assert_eq!(
        complaint(|c| {
            c.enable_admin_api = true;
            c.admin_api_token = Some("a".repeat(24));
        }),
        "admin_api_token is a single repeated character; generate a real random token"
    );
    let mut c = ServerConfig::default();
    c.min_security_level = "Level5".to_string();
    assert!(c.validate().is_ok());
    c.min_security_level = "3".to_string();
    assert!(c.validate().is_ok());
}

#[test]
fn sessions_follow_the_pool() {
    let mut c = ServerConfig::default();
    for (pool, sessions) in [
        ("10.0.0.0/30", 2),
        ("10.0.0.0/16", 65534),
        ("10.0.0.0/15", 100_000),
        ("10.0.0.0/1", 100_000),
        ("10.0.0.0/31", 1000),
        ("10.0.0.0/32", 1000),
        ("nonsense", 1000),
        ("10.0.0.0/+24", 254),
    ] {
        c.ipv4_pool = pool.to_string();
        assert_eq!(c.get_max_sessions(), sessions, "{}", pool);
    }
}

#[test]
fn parse_errors_say_where_and_not_what() {
    assert_eq!(
        sanitize_toml_error("missing field", Some((3, 9))),
        "failed to parse config: missing field (at bytes 3..9)"
    );
    assert_eq!(sanitize_toml_error("bad", None), "failed to parse config: bad");
}

#[test]
fn tuning_follows_the_system() {
    let c = ServerConfig::default();
    let caps = SystemCapabilities::detect(&SystemProbe {
        linux: true,
        parallelism: Some(8),
        meminfo: Some("MemTotal:       16777216 kB\n".to_string()),
        routes: Some("Iface\tDestination\neth1\t00000000\t0\n".to_string()),
        queue_names: Some(vec!["rx-0".to_string(), "rx-1".to_string(), "tx-0".to_string()]),
        link_speed: Some("10000\n".to_string()),
        os_release: Some("6.1.0-13-amd64\n".to_string()),
        driver: Some("ice".to_string()),
        afxdp_supported: true,
        io_uring_disabled: None,
        io_uring_supported: true,
        tun_exists: true,
    });
    assert!(c.should_use_tun_multiqueue(&caps));
    assert!(c.should_use_afxdp(&caps));
    assert!(!c.should_use_io_uring(&caps));
    assert_eq!(c.get_tun_num_queues(&caps), 2);
    assert_eq!(c.get_udp_workers(&caps), 2);
    assert_eq!(c.get_recv_buffer_size(&caps), 64 * 1024 * 1024);
    assert_eq!(c.get_send_buffer_size(&caps), 64 * 1024 * 1024);
    assert_eq!(c.get_batch_size(&caps), 64);
    assert_eq!(c.get_afxdp_config(&caps), Some(("eth1".to_string(), 2, 4096, true)));
}

#[test]
fn metrics_are_served_alone_without_the_admin_api() {
    let mut config = ServerConfig::default();
    assert!(!config.serves_metrics_alone());
    config.enable_metrics = true;
    assert!(config.serves_metrics_alone());
    config.enable_admin_api = true;
    assert!(!config.serves_metrics_alone());
}
