//! Metrics, errors and the metrics endpoint of the relay.

use hpn::net::{IpAddr, SocketAddr};
use hpn::relay::error::{RelayError, RelayResult};
use hpn::relay::http::{constant_time_eq, handle_request, MetricsHttpServer};
use hpn::relay::metrics::RelayMetrics;

#[test]
fn test_metrics_new() {
    let metrics = RelayMetrics::new();
    assert_eq!(metrics.packets_forwarded, 0);
    assert_eq!(metrics.packets_returned, 0);
    assert_eq!(metrics.bytes_forwarded, 0);
    assert_eq!(metrics.bytes_returned, 0);
    assert_eq!(metrics.packets_dropped, 0);
    assert_eq!(metrics.sessions_active, 0);
    assert_eq!(metrics.sessions_total, 0);
}

#[test]
fn test_metrics_default() {
    let metrics = RelayMetrics::default();
    assert_eq!(metrics.packets_forwarded, 0);
}

#[test]
fn test_record_forward() {
    let mut metrics = RelayMetrics::new();
    metrics.record_forward(100);
    metrics.record_forward(200);

    assert_eq!(metrics.packets_forwarded, 2);
    assert_eq!(metrics.bytes_forwarded, 300);
}

#[test]
fn test_record_return() {
    let mut metrics = RelayMetrics::new();
    metrics.record_return(150);
    metrics.record_return(250);

    assert_eq!(metrics.packets_returned, 2);
    assert_eq!(metrics.bytes_returned, 400);
}

#[test]
fn test_record_drop() {
    let mut metrics = RelayMetrics::new();
    metrics.record_drop();
    metrics.record_drop();
    metrics.record_drop();

    assert_eq!(metrics.packets_dropped, 3);
}

#[test]
fn test_record_session_created() {
    let mut metrics = RelayMetrics::new();
    metrics.record_session_created();
    metrics.record_session_created();

    assert_eq!(metrics.sessions_total, 2);
    assert_eq!(metrics.sessions_active, 2);
}

#[test]
fn test_record_session_removed() {
    let mut metrics = RelayMetrics::new();
    metrics.record_session_created();
    metrics.record_session_created();
    metrics.record_session_removed();

    assert_eq!(metrics.sessions_total, 2);
    assert_eq!(metrics.sessions_active, 1);
}

#[test]
fn removing_sessions_stops_at_zero() {
    let mut metrics = RelayMetrics::new();
    metrics.record_session_created();
    metrics.record_sessions_removed(3);
    assert_eq!(metrics.sessions_active, 0);
    assert_eq!(metrics.sessions_total, 1);
}

#[test]
fn test_set_sessions_active() {
    let mut metrics = RelayMetrics::new();
    metrics.set_sessions_active(42);

    assert_eq!(metrics.sessions_active, 42);
}

#[test]
fn test_uptime_secs() {
    let metrics = RelayMetrics::new();
    let start = std::time::Instant::now();
    while start.elapsed() < std::time::Duration::from_millis(100) {}

    let uptime = metrics.uptime_secs();
    assert!(uptime == 0); // Less than 1 second
}

#[test]
fn test_summary() {
    let mut metrics = RelayMetrics::new();
    metrics.record_forward(100);
    metrics.record_return(200);
    metrics.record_drop();
    metrics.record_session_created();

    let summary = metrics.summary();
    assert!(summary.contains("sessions=1"));
    assert!(summary.contains("fwd=1/100"));
    assert!(summary.contains("ret=1/200"));
    assert!(summary.contains("drop=1"));
}

#[test]
fn summary_is_one_exact_line() {
    let mut metrics = RelayMetrics::new();
    metrics.record_forward(100);
    metrics.set_upstream_healthy(false);
    assert_eq!(
        metrics.summary_at(61),
        "uptime=61s sessions=0 fwd=1/100 ret=0/0 drop=0 upstream=UNHEALTHY"
    );
}

#[test]
fn test_export_prometheus() {
    let mut metrics = RelayMetrics::new();
    metrics.record_forward(512);
    metrics.record_return(1024);
    metrics.record_session_created();

    let export = metrics.export_prometheus();

    // Check format
    assert!(export.contains("# HELP hpn_relay_uptime_seconds"));
    assert!(export.contains("# TYPE hpn_relay_uptime_seconds counter"));
    assert!(export.contains("# HELP hpn_relay_sessions_active"));
    assert!(export.contains("# TYPE hpn_relay_sessions_active gauge"));
    assert!(export.contains("# HELP hpn_relay_sessions_total"));
    assert!(export.contains("# HELP hpn_relay_packets_forwarded_total"));
    assert!(export.contains("# HELP hpn_relay_packets_returned_total"));
    assert!(export.contains("# HELP hpn_relay_bytes_forwarded_total"));
    assert!(export.contains("# HELP hpn_relay_bytes_returned_total"));
    assert!(export.contains("# HELP hpn_relay_packets_dropped_total"));

    // Check values
    assert!(export.contains("hpn_relay_sessions_active 1"));
    assert!(export.contains("hpn_relay_sessions_total 1"));
    assert!(export.contains("hpn_relay_packets_forwarded_total 1"));
    assert!(export.contains("hpn_relay_packets_returned_total 1"));
    assert!(export.contains("hpn_relay_bytes_forwarded_total 512"));
    assert!(export.contains("hpn_relay_bytes_returned_total 1024"));
}

#[test]
fn export_separates_metrics_by_blank_lines() {
    let metrics = RelayMetrics::new();
    let export = metrics.export_prometheus_at(7);
    assert!(export.starts_with(
        "# HELP hpn_relay_uptime_seconds Relay uptime in seconds\n# TYPE hpn_relay_uptime_seconds counter\nhpn_relay_uptime_seconds 7\n\n# HELP hpn_relay_sessions_active "
    ));
    assert!(export.ends_with("hpn_relay_upstream_probes_failed_total 0\n"));
    assert!(export.contains("hpn_relay_upstream_healthy 1\n\n"));
}

#[test]
fn probes_report_changes_of_health() {
    let mut metrics = RelayMetrics::new();
    assert!(metrics.is_upstream_healthy());
    assert!(!metrics.observe_probe(true));
    assert!(metrics.observe_probe(false));
    assert!(!metrics.observe_probe(false));
    assert!(metrics.observe_probe(true));
    assert_eq!(metrics.upstream_probes_total, 4);
    assert_eq!(metrics.upstream_probes_failed, 2);
}

#[test]
fn test_metrics_http_server_new() {
    let addr = SocketAddr::new(IpAddr::v4(127, 0, 0, 1), 9101);
    let server = MetricsHttpServer::new(addr, None);

    assert_eq!(server.addr, addr);
    assert!(!server.is_open_to_all());
    let open = MetricsHttpServer::new(SocketAddr::new(IpAddr::v4(0, 0, 0, 0), 9101), None);
    assert!(open.is_open_to_all());
}

#[test]
fn endpoint_wants_its_token() {
    let metrics = RelayMetrics::new();
    let token = Some("secret-token".to_string());
    let refused = handle_request("GET /metrics HTTP/1.1\r\nHost: x\r\n\r\n", &token, &metrics, 1);
    assert!(refused.starts_with("HTTP/1.1 401 Unauthorized\r\n"));
    assert!(refused.contains("Content-Length: 13\r\n"));
    assert!(refused.ends_with("\r\n\r\nUnauthorized\n"));
    let wrong = handle_request(
        "GET /metrics HTTP/1.1\r\nAuthorization: Bearer secret-toke\r\n\r\n",
        &token,
        &metrics,
        1,
    );
    assert_eq!(wrong, refused);
    let served = handle_request(
        "GET /metrics HTTP/1.1\r\nHost: x\r\nAUTHORIZATION: bearer  secret-token \r\n\r\n",
        &token,
        &metrics,
        1,
    );
    assert!(served.starts_with("HTTP/1.1 200 OK\r\nContent-Type: text/plain; version=0.0.4\r\n"));
    let other = handle_request(
        "GET /health HTTP/1.1\r\nAuthorization: Token secret-token\r\n\r\n",
        &token,
        &metrics,
        75,
    );
    assert!(other.ends_with("\r\n\r\nOK\nUptime: 75s\nSessions: 0\n"));
}

#[test]
fn endpoint_without_token_serves_all() {
    let metrics = RelayMetrics::new();
    let health = handle_request("GET /health HTTP/1.1\r\n\r\n", &None, &metrics, 75);
    assert_eq!(
        health,
        "HTTP/1.1 200 OK\r\nContent-Type: text/plain\r\nContent-Length: 27\r\nConnection: close\r\n\r\nOK\nUptime: 75s\nSessions: 0\n"
    );
    let missing = handle_request("GET /other HTTP/1.1\r\n\r\n", &None, &metrics, 75);
    assert!(missing.starts_with("HTTP/1.1 404 Not Found\r\n"));
    assert!(missing.contains("  GET /health  - Health check\n"));
}

#[test]
fn endpoint_reads_bytes_that_are_no_text() {
    let metrics = RelayMetrics::new();
    let server = MetricsHttpServer::new(SocketAddr::new(IpAddr::v4(127, 0, 0, 1), 1), None);
    let mut request = b"GET /health HTTP/1.1\r\nX: ".to_vec();
    request.push(0xff);
    let answer = server.handle(&request, &metrics, 3).unwrap();
    assert!(answer.contains("Uptime: 3s"));
    assert!(server.handle(b"", &metrics, 3).is_none());
}

#[test]
fn comparison_is_of_all_bytes() {
    assert!(constant_time_eq(b"", b""));
    assert!(constant_time_eq(b"hello", b"hello"));
    assert!(!constant_time_eq(b"hello", b"hellp"));
    assert!(!constant_time_eq(b"jello", b"hello"));
    assert!(!constant_time_eq(b"hello", b"hell"));
}

#[test]
fn test_relay_error_display() {
    let err = RelayError::Config("invalid address".to_string());
    assert!(err.message().contains("configuration error"));
    assert!(err.message().contains("invalid address"));
}

#[test]
fn test_relay_error_from_io() {
    let io_err = std::io::Error::new(std::io::ErrorKind::ConnectionReset, "reset");
    let err: RelayError = io_err.into();
    assert!(err.message().contains("I/O error"));
    assert!(err.message().contains("reset"));
}

#[test]
fn test_relay_error_debug() {
    let err = RelayError::Config("debug test".to_string());
    let debug = format!("{:?}", err);
    assert!(debug.contains("Config"));
}

#[test]
fn test_relay_result_ok() {
    fn produce_ok() -> RelayResult<i32> {
        Ok(100)
    }
    let result = produce_ok();
    assert!(result.is_ok());
    assert_eq!(result.unwrap(), 100);
}

#[test]
fn test_relay_result_err() {
    let result: RelayResult<i32> = Err(RelayError::Config("failed".to_string()));
    assert!(result.is_err());
}
