//! Metrics of the server.

use hpn::server::auth_lockout::LockoutKind;
use hpn::server::metrics::{
    format_bytes, handle_request, LatencyHistogram, Metric, MetricType, ServerMetrics,
};

#[test]
fn test_metric_counter() {
    let mut metric = Metric::counter("test_counter", "A test counter");
    assert_eq!(metric.get(), 0);

    metric.inc();
    assert_eq!(metric.get(), 1);

    metric.inc_by(5);
    assert_eq!(metric.get(), 6);
}

#[test]
fn test_metric_gauge() {
    let mut metric = Metric::gauge("test_gauge", "A test gauge");
    assert_eq!(metric.get(), 0);

    metric.set(100);
    assert_eq!(metric.get(), 100);

    metric.dec();
    assert_eq!(metric.get(), 99);
}

#[test]
fn test_server_metrics() {
    let mut metrics = ServerMetrics::new();

    metrics.record_handshake(true);
    metrics.record_handshake(false);
    metrics.record_session_created();
    metrics.record_bytes(1000, 2000);

    let summary = metrics.summary();
    assert_eq!(summary.handshakes_success, 1);
    assert_eq!(summary.handshakes_failed, 1);
    assert_eq!(summary.sessions_active, 1);
    assert_eq!(summary.bytes_sent, 1000);
    assert_eq!(summary.bytes_received, 2000);
}

#[test]
fn test_prometheus_export() {
    let mut metrics = ServerMetrics::new();
    metrics.record_handshake(true);
    metrics.record_session_created();

    let output = metrics.export_prometheus();
    assert!(output.contains("hpn_handshakes_total"));
    assert!(output.contains("hpn_sessions_active"));
}

#[test]
fn test_latency_histogram() {
    let mut histogram = LatencyHistogram::new();

    histogram.record(5);
    histogram.record(50);
    histogram.record(500);

    assert_eq!(histogram.count, 3);
    assert_eq!(histogram.sum, 555);
}

#[test]
fn test_metric_type_display() {
    assert_eq!(MetricType::Counter, MetricType::Counter);
    assert_eq!(MetricType::Gauge, MetricType::Gauge);
    assert_eq!(MetricType::Histogram, MetricType::Histogram);
    assert_ne!(MetricType::Counter, MetricType::Gauge);
}

#[test]
fn test_metric_format_prometheus_counter() {
    let mut metric = Metric::counter("test_requests_total", "Total requests");
    metric.inc_by(42);

    let output = metric.format_prometheus();
    assert!(output.contains("# HELP test_requests_total Total requests"));
    assert!(output.contains("# TYPE test_requests_total counter"));
    assert!(output.contains("test_requests_total 42"));
}

#[test]
fn test_metric_format_prometheus_gauge() {
    let mut metric = Metric::gauge("test_connections", "Active connections");
    metric.set(10);

    let output = metric.format_prometheus();
    assert!(output.contains("# HELP test_connections Active connections"));
    assert!(output.contains("# TYPE test_connections gauge"));
    assert!(output.contains("test_connections 10"));
}

#[test]
fn test_metric_counter_overflow_safe() {
    let mut metric = Metric::counter("overflow_test", "Test overflow");

    // Set close to max
    metric.set(u64::MAX - 10);
    assert_eq!(metric.get(), u64::MAX - 10);

    // Increment should wrap (atomic wrapping behavior)
    metric.inc_by(20);
    // After overflow, value wraps around
    assert!(metric.get() < 20);
}

#[test]
fn test_metric_gauge_dec_from_zero() {
    let mut metric = Metric::gauge("gauge_underflow", "Test underflow");
    assert_eq!(metric.get(), 0);

    // Decrement from 0 should saturate at 0 (not wrap)
    metric.dec();
    assert_eq!(metric.get(), 0);
}

#[test]
fn test_server_metrics_record_session_lifecycle() {
    let mut metrics = ServerMetrics::new();

    // Create session
    metrics.record_session_created();
    assert_eq!(metrics.sessions_active.get(), 1);
    assert_eq!(metrics.sessions_total.get(), 1);

    // Create another
    metrics.record_session_created();
    assert_eq!(metrics.sessions_active.get(), 2);
    assert_eq!(metrics.sessions_total.get(), 2);

    // End one (not a timeout)
    metrics.record_session_ended(false);
    assert_eq!(metrics.sessions_active.get(), 1);
    assert_eq!(metrics.sessions_total.get(), 2);
}

#[test]
fn test_server_metrics_record_packets() {
    let mut metrics = ServerMetrics::new();

    metrics.record_packets(5, 10);

    assert_eq!(metrics.packets_sent.get(), 5);
    assert_eq!(metrics.packets_received.get(), 10);
}

#[test]
fn test_server_metrics_record_packet_drop() {
    let mut metrics = ServerMetrics::new();

    metrics.record_packet_drop();
    metrics.record_packet_drop();

    assert_eq!(metrics.packets_dropped.get(), 2);
}

#[test]
fn test_server_metrics_record_errors() {
    let mut metrics = ServerMetrics::new();

    metrics.record_decryption_error();
    metrics.record_invalid_packet();
    metrics.record_replay_rejection();

    assert_eq!(metrics.decryption_errors.get(), 1);
    assert_eq!(metrics.invalid_packets.get(), 1);
    assert_eq!(metrics.replay_rejections.get(), 1);
}

#[test]
fn test_server_metrics_record_rekey() {
    let mut metrics = ServerMetrics::new();

    metrics.record_rekey();
    metrics.record_rekey();

    assert_eq!(metrics.rekeys_total.get(), 2);
}

#[test]
fn test_server_metrics_record_control_message() {
    let mut metrics = ServerMetrics::new();

    metrics.record_control_message();

    assert_eq!(metrics.control_messages.get(), 1);
}

#[test]
fn test_server_metrics_record_keepalive() {
    let mut metrics = ServerMetrics::new();

    metrics.record_keepalive();
    metrics.record_keepalive();
    metrics.record_keepalive();

    assert_eq!(metrics.keepalives_received.get(), 3);
}

#[test]
fn test_server_metrics_record_session_timeout() {
    let mut metrics = ServerMetrics::new();

    metrics.record_session_created();
    metrics.record_session_ended(true); // timeout=true

    assert_eq!(metrics.sessions_timeout.get(), 1);
}

#[test]
fn test_server_metrics_record_rate_limited() {
    let mut metrics = ServerMetrics::new();

    metrics.record_rate_limited();

    assert_eq!(metrics.handshakes_rate_limited.get(), 1);
}

#[test]
fn test_latency_histogram_buckets() {
    let mut histogram = LatencyHistogram::new();

    // Record values in different buckets
    histogram.record(0); // <= 1ms
    histogram.record(1); // <= 1ms
    histogram.record(3); // <= 5ms
    histogram.record(7); // <= 10ms
    histogram.record(20); // <= 25ms
    histogram.record(40); // <= 50ms
    histogram.record(80); // <= 100ms
    histogram.record(200); // <= 250ms
    histogram.record(400); // <= 500ms
    histogram.record(800); // <= 1000ms
    histogram.record(2000); // > 1000ms (inf)

    assert_eq!(histogram.count, 11);

    // Sum: 0+1+3+7+20+40+80+200+400+800+2000 = 3551
    assert_eq!(histogram.sum, 3551);
}

#[test]
fn test_latency_histogram_prometheus_format() {
    let mut histogram = LatencyHistogram::new();

    histogram.record(5);
    histogram.record(50);
    histogram.record(500);

    let output = histogram.format_prometheus();

    assert!(output.contains("# HELP hpn_request_latency_ms"));
    assert!(output.contains("# TYPE hpn_request_latency_ms histogram"));
    assert!(output.contains("hpn_request_latency_ms_sum 555"));
    assert!(output.contains("hpn_request_latency_ms_count 3"));
    assert!(output.contains("le=\"+Inf\""));
}

#[test]
fn test_latency_histogram_empty() {
    let mut histogram = LatencyHistogram::new();

    assert_eq!(histogram.count, 0);
    assert_eq!(histogram.sum, 0);

    let output = histogram.format_prometheus();
    assert!(output.contains("hpn_request_latency_ms_sum 0"));
    assert!(output.contains("hpn_request_latency_ms_count 0"));
}

#[test]
fn test_latency_histogram_max_value() {
    let mut histogram = LatencyHistogram::new();

    histogram.record(u64::MAX);

    assert_eq!(histogram.count, 1);
    assert_eq!(histogram.sum, u64::MAX);
}

#[test]
fn test_server_metrics_summary_structure() {
    let mut metrics = ServerMetrics::new();

    metrics.record_handshake(true);
    metrics.record_session_created();
    metrics.record_bytes(100, 200);

    let summary = metrics.summary();

    // Verify structure
    assert_eq!(summary.handshakes_success, 1);
    assert_eq!(summary.sessions_active, 1);
    assert_eq!(summary.bytes_sent, 100);
    assert_eq!(summary.bytes_received, 200);
}

#[test]
fn test_server_metrics_export_prometheus_complete() {
    let mut metrics = ServerMetrics::new();

    // Record various metrics
    metrics.record_handshake(true);
    metrics.record_handshake(false);
    metrics.record_session_created();
    metrics.record_bytes(1000, 2000);
    metrics.record_packets(5, 10);
    metrics.record_decryption_error();

    let output = metrics.export_prometheus();

    // Verify all metrics are present
    assert!(output.contains("hpn_handshakes_total"));
    assert!(output.contains("hpn_handshakes_success_total"));
    assert!(output.contains("hpn_handshakes_failed_total"));
    assert!(output.contains("hpn_sessions_active"));
    assert!(output.contains("hpn_sessions_total"));
    assert!(output.contains("hpn_bytes_sent_total"));
    assert!(output.contains("hpn_bytes_received_total"));
    assert!(output.contains("hpn_packets_sent_total"));
    assert!(output.contains("hpn_packets_received_total"));
    assert!(output.contains("hpn_decryption_errors_total"));
}

#[test]
fn histogram_buckets_hold_what_they_say() {
    let mut metrics = ServerMetrics::new();
    for value in [1, 3, 8, 20, 40, 80, 200, 400, 800, 2000] {
        metrics.record_latency_ms(value);
    }
    assert_eq!(metrics.latency_buckets.counts, vec![1; 9]);
    assert_eq!(metrics.latency_buckets.overflow, 1);
    let text = metrics.latency_buckets.format_prometheus();
    assert!(text.contains("hpn_request_latency_ms_bucket{le=\"1\"} 1\n"));
    assert!(text.contains("hpn_request_latency_ms_bucket{le=\"1000\"} 9\n"));
    assert!(text.contains("hpn_request_latency_ms_bucket{le=\"+Inf\"} 10\n"));
    assert!(text.ends_with("hpn_request_latency_ms_sum 3552\nhpn_request_latency_ms_count 10\n"));
}

#[test]
fn summary_line_is_exact() {
    let mut metrics = ServerMetrics::new();
    metrics.record_bytes(1536, 10);
    metrics.record_handshake(false);
    assert_eq!(
        metrics.summary_at(9).format(),
        "uptime=9s sessions=0/0 bytes_tx=1.50KB bytes_rx=10B pkts_tx=0 pkts_rx=0 pkts_drop=0 decrypt_err=0 hs_ok=0 hs_fail=1"
    );
    assert_eq!(format_bytes(1 << 30), "1.00GB");
}

#[test]
fn workers_and_lockouts_are_counted() {
    let mut metrics = ServerMetrics::new();
    assert_eq!(metrics.record_worker_panic(), 1);
    assert_eq!(metrics.record_worker_panic(), 2);
    assert_eq!(metrics.worker_panic_count(), 2);
    metrics.record_worker_restart();
    assert!(!metrics.is_degraded());
    metrics.set_degraded_mode(true);
    assert!(metrics.is_degraded());
    metrics.record_auth_lockout(LockoutKind::Tuple);
    metrics.record_auth_lockout(LockoutKind::Ip);
    metrics.record_auth_lockout(LockoutKind::Ip);
    metrics.record_auth_lockout(LockoutKind::UsernameSpread);
    assert_eq!(metrics.auth_lockout_tuple_total.get(), 1);
    assert_eq!(metrics.auth_lockout_ip_total.get(), 2);
    assert_eq!(metrics.auth_lockout_username_total.get(), 1);
    metrics.record_address_mismatch_drop();
    assert_eq!(metrics.address_mismatch_drops.get(), 1);
    assert_eq!(metrics.packets_dropped.get(), 1);
    metrics.record_session_rate_limited();
    assert_eq!(metrics.session_rate_limited.get(), 1);
}

#[test]
fn endpoint_answers_by_path() {
    let metrics = ServerMetrics::default();
    let r = handle_request("GET", "/metrics", &metrics, 4);
    assert_eq!(r.status, 200);
    assert!(r.body.starts_with("# HELP hpn_uptime_seconds Server uptime in seconds\n"));
    assert!(r.body.contains("\nhpn_uptime_seconds 4\n\n# HELP hpn_handshakes_total"));
    let r = handle_request("GET", "/health", &metrics, 4);
    assert_eq!((r.status, r.body.as_str()), (200, "OK"));
    let r = handle_request("GET", "/", &metrics, 4);
    assert_eq!(r.content_type, Some("text/html"));
    assert!(r.body.starts_with("<!DOCTYPE html>\n"));
    let r = handle_request("POST", "/metrics", &metrics, 4);
    assert_eq!((r.status, r.content_type, r.body.as_str()), (404, None, "Not Found"));
}
