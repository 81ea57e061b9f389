//! The relay's configuration.

use hpn::net::{IpAddr, SocketAddr};
use hpn::relay::config::{check_file_size, RelayConfig, MAX_CONFIG_FILE_SIZE};
use hpn::time::Duration;

#[test]
fn test_default_config() {
    let config = RelayConfig::default();
    assert!(config.validate().is_ok());
}

#[test]
fn test_loopback_detection() {
    // Same address should fail
    let config = RelayConfig {
        listen_addr: SocketAddr::new(IpAddr::v4(0, 0, 0, 0), 51820),
        upstream_addr: SocketAddr::new(IpAddr::v4(0, 0, 0, 0), 51820),
        ..Default::default()
    };
    assert!(config.validate().is_err());

    // Localhost with same port should fail
    let config = RelayConfig {
        listen_addr: SocketAddr::new(IpAddr::v4(0, 0, 0, 0), 51820),
        upstream_addr: SocketAddr::new(IpAddr::v4(127, 0, 0, 1), 51820),
        ..Default::default()
    };
    assert!(config.validate().is_err());

    // Different ports should pass
    let config = RelayConfig {
        listen_addr: SocketAddr::new(IpAddr::v4(0, 0, 0, 0), 51821),
        upstream_addr: SocketAddr::new(IpAddr::v4(127, 0, 0, 1), 51820),
        ..Default::default()
    };
    assert!(config.validate().is_ok());

    // Different IPs should pass
    let config = RelayConfig {
        listen_addr: SocketAddr::new(IpAddr::v4(0, 0, 0, 0), 51820),
        upstream_addr: SocketAddr::new(IpAddr::v4(192, 168, 1, 1), 51820),
        ..Default::default()
    };
    assert!(config.validate().is_ok());
}

#[test]
fn test_rate_limit_check() {
    let mut config = RelayConfig::default();
    assert!(!config.has_rate_limits());

    config.rate_limit_pps = Some(1000);
    assert!(config.has_rate_limits());

    config.rate_limit_pps = None;
    config.rate_limit_bps = Some(1_000_000);
    assert!(config.has_rate_limits());
}

#[test]
fn test_default_values() {
    let config = RelayConfig::default();
    assert_eq!(config.listen_addr.to_text(), "0.0.0.0:51821");
    assert_eq!(config.upstream_addr.to_text(), "127.0.0.1:51820");
    assert_eq!(config.max_sessions, 10000);
    assert_eq!(config.session_timeout_secs, 180);
    assert_eq!(config.buffer_size, 65535);
    assert!(config.log_enabled);
    assert!(!config.enable_stats);
    assert_eq!(config.stats_interval_secs, 60);
    assert!(config.relay_id.is_none());
    assert!(config.rate_limit_pps.is_none());
    assert!(config.rate_limit_bps.is_none());
    assert!(!config.enable_metrics);
}

#[test]
fn test_session_timeout() {
    let config = RelayConfig::default();
    let timeout = config.session_timeout();
    assert_eq!(timeout, Duration::from_secs(180));
}

#[test]
fn test_stats_interval() {
    let config = RelayConfig::default();
    let interval = config.stats_interval();
    assert_eq!(interval, Duration::from_secs(60));
}

#[test]
fn test_config_clone() {
    let config1 = RelayConfig::default();
    let config2 = config1.clone();

    assert_eq!(config1.listen_addr, config2.listen_addr);
    assert_eq!(config1.upstream_addr, config2.upstream_addr);
    assert_eq!(config1.max_sessions, config2.max_sessions);
}

#[test]
fn test_config_debug() {
    let config = RelayConfig::default();
    let debug_str = format!("{:?}", config);
    assert!(debug_str.contains("RelayConfig"));
}

#[test]
fn test_custom_buffer_size() {
    let config = RelayConfig {
        buffer_size: 32768,
        ..Default::default()
    };
    assert_eq!(config.buffer_size, 32768);
}

#[test]
fn test_relay_id_optional() {
    let mut config = RelayConfig::default();
    assert!(config.relay_id.is_none());

    config.relay_id = Some("test-relay".to_string());
    assert_eq!(config.relay_id, Some("test-relay".to_string()));
}

#[test]
fn test_metrics_configuration() {
    let config = RelayConfig::default();
    assert!(!config.enable_metrics);
    assert_eq!(config.metrics_addr.to_text(), "127.0.0.1:9101");

    let config_enabled = RelayConfig {
        enable_metrics: true,
        metrics_addr: SocketAddr::new(IpAddr::v4(0, 0, 0, 0), 8080),
        ..Default::default()
    };
    assert!(config_enabled.enable_metrics);
    assert_eq!(config_enabled.metrics_addr.to_text(), "0.0.0.0:8080");
}

#[test]
fn test_rate_limits_both_set() {
    let config = RelayConfig {
        rate_limit_pps: Some(5000),
        rate_limit_bps: Some(50_000_000),
        ..Default::default()
    };

    assert!(config.has_rate_limits());
    assert_eq!(config.rate_limit_pps, Some(5000));
    assert_eq!(config.rate_limit_bps, Some(50_000_000));
}

#[test]
fn test_validate_valid_config() {
    let config = RelayConfig {
        listen_addr: SocketAddr::new(IpAddr::v4(0, 0, 0, 0), 51821),
        upstream_addr: SocketAddr::new(IpAddr::v4(10, 0, 0, 1), 51820),
        max_sessions: 1000,
        session_timeout_secs: 60,
        buffer_size: 32768,
        log_enabled: true,
        log_file: None,
        log_max_size_mb: 100,
        log_max_files: 5,
        enable_stats: true,
        stats_interval_secs: 30,
        relay_id: Some("relay-test".into()),
        rate_limit_pps: Some(1000),
        rate_limit_bps: Some(10_000_000),
        max_concurrent_handshakes: Some(128),
        handshake_rate_limit_pps: Some(32),
        handshake_global_rate_limit_pps: Some(128),
        enable_metrics: true,
        metrics_addr: SocketAddr::new(IpAddr::v4(127, 0, 0, 1), 9100),
        metrics_auth_token: None,
        no_log: true,
        license_key: None,
    };

    assert!(config.validate().is_ok());
}

#[test]
fn test_validate_zero_max_sessions() {
    let config = RelayConfig {
        max_sessions: 0,
        ..Default::default()
    };

    assert!(config.validate().is_err());
}

#[test]
fn test_validate_zero_buffer_size() {
    let config = RelayConfig {
        buffer_size: 0,
        ..Default::default()
    };

    assert!(config.validate().is_err());
}

#[test]
fn test_has_rate_limits_neither_set() {
    let config = RelayConfig {
        rate_limit_pps: None,
        rate_limit_bps: None,
        ..Default::default()
    };

    assert!(!config.has_rate_limits());
}

#[test]
fn test_validate_rejects_metrics_non_loopback_without_token() {
    // enable_metrics + non-loopback bind + no token
    // MUST fail validation (otherwise an attacker on the LAN can
    // scrape session counts, drop counters).
    let config = RelayConfig {
        enable_metrics: true,
        metrics_addr: SocketAddr::new(IpAddr::v4(0, 0, 0, 0), 9100),
        metrics_auth_token: None,
        ..Default::default()
    };
    let err = config
        .validate()
        .expect_err("non-loopback + no token must fail");
    assert!(err.message().contains("metrics_auth_token"));
}

#[test]
fn test_validate_rejects_metrics_non_loopback_with_short_token() {
    // A token with <16 effective chars (after trim) is treated as
    // no token.
    let config = RelayConfig {
        enable_metrics: true,
        metrics_addr: SocketAddr::new(IpAddr::v4(0, 0, 0, 0), 9100),
        metrics_auth_token: Some("   short   ".into()),
        ..Default::default()
    };
    assert!(config.validate().is_err());
}

#[test]
fn test_validate_accepts_metrics_loopback_without_token() {
    // 127.0.0.1 bind is intrinsically reachable only from the same
    // host, so the absence of a token is acceptable — the operator
    // is expected to front it with an authenticated reverse proxy.
    let config = RelayConfig {
        enable_metrics: true,
        metrics_addr: SocketAddr::new(IpAddr::v4(127, 0, 0, 1), 9100),
        metrics_auth_token: None,
        ..Default::default()
    };
    assert!(config.validate().is_ok());
}

#[test]
fn test_validate_accepts_metrics_non_loopback_with_strong_token() {
    // The escape hatch: non-loopback with a 16+ char bearer token
    // is the supported "remote scraping" path.
    let config = RelayConfig {
        enable_metrics: true,
        metrics_addr: SocketAddr::new(IpAddr::v4(0, 0, 0, 0), 9100),
        metrics_auth_token: Some("a-strong-token-32-chars-long!".into()),
        ..Default::default()
    };
    assert!(config.validate().is_ok());
}

#[test]
fn test_validate_accepts_disabled_metrics_regardless_of_addr() {
    // If metrics are disabled, the addr / token are irrelevant.
    let config = RelayConfig {
        enable_metrics: false,
        metrics_addr: SocketAddr::new(IpAddr::v4(0, 0, 0, 0), 9100),
        metrics_auth_token: None,
        ..Default::default()
    };
    assert!(config.validate().is_ok());
}

#[test]
fn every_rule_has_its_complaint() {
    let complaint = |c: RelayConfig| c.validate().unwrap_err().message();
    let base = RelayConfig::default;
    assert_eq!(
        complaint(RelayConfig { max_sessions: 0, ..base() }),
        "configuration error: max_sessions must be > 0"
    );
    assert_eq!(
        complaint(RelayConfig { session_timeout_secs: 9, ..base() }),
        "configuration error: session_timeout_secs must be >= 10"
    );
    assert_eq!(
        complaint(RelayConfig { buffer_size: 1499, ..base() }),
        "configuration error: buffer_size must be >= 1500"
    );
    assert_eq!(
        complaint(RelayConfig { max_concurrent_handshakes: Some(0), ..base() }),
        "configuration error: max_concurrent_handshakes must be > 0 when set"
    );
    assert_eq!(
        complaint(RelayConfig { handshake_rate_limit_pps: Some(0), ..base() }),
        "configuration error: handshake_rate_limit_pps must be > 0 when set"
    );
    let here = SocketAddr::new(IpAddr::v4(10, 0, 0, 1), 1);
    assert!(complaint(RelayConfig { listen_addr: here, upstream_addr: here, ..base() })
        .contains("cannot be the same as listen_addr"));
    let any = SocketAddr::new(IpAddr::V6(0), 7);
    let loopback = SocketAddr::new(IpAddr::V6(1), 7);
    assert!(complaint(RelayConfig { listen_addr: any, upstream_addr: loopback, ..base() })
        .contains("points to localhost on same port"));
    let open = SocketAddr::new(IpAddr::V6(0xfd00 << 112), 9100);
    assert!(complaint(RelayConfig { enable_metrics: true, metrics_addr: open, ..base() })
        .starts_with("configuration error: enable_metrics is true and metrics_addr ([fd00::]:9100) is not"));
}

#[test]
fn large_files_are_refused() {
    assert!(check_file_size(MAX_CONFIG_FILE_SIZE).is_ok());
    assert_eq!(
        check_file_size(MAX_CONFIG_FILE_SIZE + 1).unwrap_err().message(),
        "configuration error: config file too large: 1048577 bytes (max: 1048576 bytes)"
    );
}

#[test]
fn sections_are_tried_in_turn() {
    let other = RelayConfig { max_sessions: 7, ..RelayConfig::default() };
    let c = RelayConfig::from_parsed(Ok(RelayConfig::default()), Some(other)).unwrap();
    assert_eq!(c.max_sessions, 10000);
    let other = RelayConfig { max_sessions: 7, ..RelayConfig::default() };
    let c = RelayConfig::from_parsed(Err("no".to_string()), Some(other)).unwrap();
    assert_eq!(c.max_sessions, 7);
    let e = RelayConfig::from_parsed(Err("no".to_string()), None).unwrap_err();
    assert_eq!(e.message(), "configuration error: failed to parse config: no");
}

#[test]
fn the_example_is_valid() {
    let c = RelayConfig::example();
    assert!(c.validate().is_ok());
    assert_eq!(c.upstream_addr.to_text(), "198.51.100.1:51820");
    assert_eq!(c.relay_id.as_deref(), Some("relay-1"));
    assert_eq!(c.max_concurrent_handshakes, Some(256));
}

#[test]
fn relay_logging_follows_the_configuration() {
    let s = RelayConfig::log_settings(None);
    assert!(s.enabled && !s.no_log && s.file.is_none());
    let config = RelayConfig {
        log_enabled: false,
        log_file: Some("/var/log/relay.log".to_string()),
        log_max_size_mb: 7,
        log_max_files: 2,
        ..Default::default()
    };
    let s = RelayConfig::log_settings(Some(&config));
    assert!(!s.enabled);
    let f = s.file.unwrap();
    assert_eq!((f.path.as_str(), f.max_size_mb, f.max_files), ("/var/log/relay.log", 7, 2));
}
