//! Prometheus metrics of the server.

use crate::byte_size::{byte_text, human_bytes};
use crate::relay::metrics::{bumped, family};
use crate::server::auth_lockout::LockoutKind;
use crate::text::{contains_text, decimal, law_appending_keeps_what_occurs, push_decimal, same_text};
use crate::time::Clock;
use vstd::prelude::*;

verus! {

/// Prometheus metric types.
#[derive(Clone, Copy, Debug, PartialEq, Eq, Structural)]
pub enum MetricType {
    /// Counter: monotonically increasing value.
    Counter,
    /// Gauge: value that can go up and down.
    Gauge,
    /// Histogram: distribution of values.
    Histogram,
}

/// A single metric with name, help, and type.
#[derive(Clone, Copy, Debug)]
pub struct Metric {
    /// Metric name (prometheus format).
    pub name: &'static str,
    /// Help text.
    pub help: &'static str,
    /// Metric type.
    pub metric_type: MetricType,
    /// Current value (for counters and gauges).
    pub value: u64,
}

/// The word for a metric type.
pub open spec fn type_text(t: MetricType) -> Seq<char> {
    match t {
        MetricType::Counter => "counter"@,
        MetricType::Gauge => "gauge"@,
        MetricType::Histogram => "histogram"@,
    }
}

impl Metric {
    /// After `n` was added; the value wraps around.
    pub open spec fn plus(self, n: nat) -> Metric {
        Metric { value: bumped(self.value, n), ..self }
    }

    /// After one was taken off; the value stops at zero.
    pub open spec fn minus_one(self) -> Metric {
        Metric {
            value: if self.value > 0 {
                (self.value - 1) as u64
            } else {
                0
            },
            ..self
        }
    }

    /// The metric in the Prometheus text format.
    pub open spec fn text(self) -> Seq<char> {
        family(self.name@, self.help@, type_text(self.metric_type), self.value as nat)
    }

    /// Create a new counter metric.
    pub fn counter(name: &'static str, help: &'static str) -> (m: Metric)
        ensures
            m == (Metric { name, help, metric_type: MetricType::Counter, value: 0 }),
    {
        Metric { name, help, metric_type: MetricType::Counter, value: 0 }
    }

    /// Create a new gauge metric.
    pub fn gauge(name: &'static str, help: &'static str) -> (m: Metric)
        ensures
            m == (Metric { name, help, metric_type: MetricType::Gauge, value: 0 }),
    {
        Metric { name, help, metric_type: MetricType::Gauge, value: 0 }
    }

    /// Increment counter or gauge.
    pub fn inc(&mut self)
        ensures
            *final(self) == old(self).plus(1),
    {
        self.value = self.value.wrapping_add(1);
    }

    /// Increment by a specific amount.
    pub fn inc_by(&mut self, n: u64)
        ensures
            *final(self) == old(self).plus(n as nat),
    {
        self.value = self.value.wrapping_add(n);
    }

    /// Decrement gauge (saturates at 0 to prevent underflow).
    pub fn dec(&mut self)
        ensures
            *final(self) == old(self).minus_one(),
    {
        self.value = self.value.saturating_sub(1);
    }

    /// Set gauge to a specific value.
    pub fn set(&mut self, value: u64)
        ensures
            *final(self) == (Metric { value, ..*old(self) }),
    {
        self.value = value;
    }

    /// Get current value.
    pub fn get(&self) -> (v: u64)
        ensures
            v == self.value,
    {
        self.value
    }

    /// Format for Prometheus export.
    pub fn format_prometheus(&self) -> (s: String)
        ensures
            s@ == self.text(),
    {
        let mut s = String::from_str("# HELP ");
        s.append(self.name);
        s.append(" ");
        s.append(self.help);
        s.append("\n# TYPE ");
        s.append(self.name);
        s.append(" ");
        match self.metric_type {
            MetricType::Counter => s.append("counter"),
            MetricType::Gauge => s.append("gauge"),
            MetricType::Histogram => s.append("histogram"),
        }
        s.append("\n");
        s.append(self.name);
        s.append(" ");
        push_decimal(&mut s, self.get());
        s.append("\n");
        s
    }
}

/// The upper bounds of the latency buckets, in milliseconds.
pub open spec fn latency_bounds() -> Seq<u64> {
    seq![1u64, 5, 10, 25, 50, 100, 250, 500, 1000]
}

/// The first bucket from `i` on that a value falls into; the number of buckets when it exceeds
/// them all.
pub open spec fn bucket_from(bounds: Seq<u64>, value: u64, i: int) -> int
    decreases bounds.len() - i,
{
    if i < 0 || i >= bounds.len() || value <= bounds[i] {
        i
    } else {
        bucket_from(bounds, value, i + 1)
    }
}

/// Sum of the first `n` counts.
pub open spec fn count_sum(counts: Seq<u64>, n: int) -> nat
    decreases n,
{
    if n <= 0 || n > counts.len() {
        0
    } else {
        count_sum(counts, n - 1) + counts[n - 1] as nat
    }
}

/// Latency histogram. Values beyond the largest bucket are counted apart, so that no bucket
/// holds values above its bound.
pub struct LatencyHistogram {
    /// Bucket boundaries in milliseconds.
    pub buckets: Vec<u64>,
    /// Counts per bucket.
    pub counts: Vec<u64>,
    /// Count of observations exceeding the largest bucket boundary.
    pub overflow: u64,
    /// Sum of all observed values.
    pub sum: u64,
    /// Total observations.
    pub count: u64,
}

impl LatencyHistogram {
    /// One count for each of the fixed buckets.
    pub open spec fn wf(self) -> bool {
        self.buckets@ == latency_bounds() && self.counts@.len() == self.buckets@.len()
    }

    /// The line of bucket `i`, which counts all values up to its bound.
    pub open spec fn bucket_line(self, i: int) -> Seq<char> {
        "hpn_request_latency_ms_bucket{le=\""@ + decimal(self.buckets@[i] as nat) + "\"} "@
            + decimal(count_sum(self.counts@, i + 1) % 0x1_0000_0000_0000_0000) + "\n"@
    }

    /// The lines of the first `n` buckets, after the head.
    pub open spec fn bucket_lines(self, n: int) -> Seq<char>
        decreases n,
    {
        if n <= 0 {
            "# HELP hpn_request_latency_ms Request latency in milliseconds\n# TYPE hpn_request_latency_ms histogram\n"@
        } else {
            self.bucket_lines(n - 1) + self.bucket_line(n - 1)
        }
    }

    /// Whether `after` is this histogram with one more value.
    pub open spec fn gained(self, after: LatencyHistogram, value_ms: u64) -> bool {
        let b = bucket_from(latency_bounds(), value_ms, 0);
        &&& after.buckets@ == self.buckets@
        &&& after.sum == bumped(self.sum, value_ms as nat)
        &&& after.count == bumped(self.count, 1)
        &&& if b < latency_bounds().len() {
            &&& after.counts@ == self.counts@.update(b, bumped(self.counts@[b], 1))
            &&& after.overflow == self.overflow
        } else {
            &&& after.counts@ == self.counts@
            &&& after.overflow == bumped(self.overflow, 1)
        }
    }

    /// The number of all values: those in buckets, and those beyond.
    pub open spec fn total(self) -> nat {
        count_sum(self.counts@, self.counts@.len() as int) + self.overflow as nat
    }

    /// The histogram in the Prometheus text format.
    pub open spec fn text(self) -> Seq<char> {
        self.bucket_lines(self.buckets@.len() as int)
            + "hpn_request_latency_ms_bucket{le=\"+Inf\"} "@ + decimal(
            self.total() % 0x1_0000_0000_0000_0000,
        ) + "\n"@ + "hpn_request_latency_ms_sum "@ + decimal(self.sum as nat) + "\n"@
            + "hpn_request_latency_ms_count "@ + decimal(self.count as nat) + "\n"@
    }

    /// Create with default buckets.
    pub fn new() -> (h: LatencyHistogram)
        ensures
            h.wf(),
            h.counts@ == Seq::new(9, |i: int| 0u64),
            h.overflow == 0,
            h.sum == 0,
            h.count == 0,
    {
        let buckets: Vec<u64> = vec![1, 5, 10, 25, 50, 100, 250, 500, 1000];
        let counts: Vec<u64> = vec![0, 0, 0, 0, 0, 0, 0, 0, 0];
        let h = LatencyHistogram { buckets, counts, overflow: 0, sum: 0, count: 0 };
        proof {
            assert(h.buckets@ =~= latency_bounds());
            assert(h.counts@ =~= Seq::new(9, |i: int| 0u64));
        }
        h
    }

    /// Record a latency value.
    pub fn record(&mut self, value_ms: u64)
        requires
            old(self).wf(),
        ensures
            final(self).wf(),
            final(self).sum == bumped(old(self).sum, value_ms as nat),
            final(self).count == bumped(old(self).count, 1),
            ({
                let b = bucket_from(latency_bounds(), value_ms, 0);
                if b < latency_bounds().len() {
                    &&& final(self).counts@ == old(self).counts@.update(
                        b,
                        bumped(old(self).counts@[b], 1),
                    )
                    &&& final(self).overflow == old(self).overflow
                } else {
                    &&& final(self).counts@ == old(self).counts@
                    &&& final(self).overflow == bumped(old(self).overflow, 1)
                }
            }),
            old(self).gained(*final(self), value_ms),
    {
        self.sum = self.sum.wrapping_add(value_ms);
        self.count = self.count.wrapping_add(1);
        let mut i: usize = 0;
        while i < self.buckets.len()
            invariant
                i <= self.buckets@.len(),
                old(self).wf(),
                self.wf(),
                self.counts@ == old(self).counts@,
                self.overflow == old(self).overflow,
                self.sum == bumped(old(self).sum, value_ms as nat),
                self.count == bumped(old(self).count, 1),
                bucket_from(latency_bounds(), value_ms, 0) == bucket_from(
                    latency_bounds(),
                    value_ms,
                    i as int,
                ),
            decreases self.buckets@.len() - i,
        {
            if value_ms <= self.buckets[i] {
                let n: u64 = self.counts[i].wrapping_add(1);
                self.counts.set(i, n);
                return ;
            }
            i += 1;
        }
        self.overflow = self.overflow.wrapping_add(1);
    }

    /// Format for Prometheus.
    pub fn format_prometheus(&self) -> (s: String)
        requires
            self.wf(),
        ensures
            s@ == self.text(),
    {
        let mut s = String::from_str(
            "# HELP hpn_request_latency_ms Request latency in milliseconds\n# TYPE hpn_request_latency_ms histogram\n",
        );
        let mut cumulative: u64 = 0;
        let mut i: usize = 0;
        while i < self.buckets.len()
            invariant
                i <= self.buckets@.len(),
                self.wf(),
                cumulative == count_sum(self.counts@, i as int) % 0x1_0000_0000_0000_0000,
                s@ == self.bucket_lines(i as int),
            decreases self.buckets@.len() - i,
        {
            let ghost before = s@;
            cumulative = cumulative.wrapping_add(self.counts[i]);
            s.append("hpn_request_latency_ms_bucket{le=\"");
            push_decimal(&mut s, self.buckets[i]);
            s.append("\"} ");
            push_decimal(&mut s, cumulative);
            s.append("\n");
            proof {
                assert(s@ =~= before + self.bucket_line(i as int));
            }
            i += 1;
        }
        cumulative = cumulative.wrapping_add(self.overflow);
        s.append("hpn_request_latency_ms_bucket{le=\"+Inf\"} ");
        push_decimal(&mut s, cumulative);
        s.append("\n");
        s.append("hpn_request_latency_ms_sum ");
        push_decimal(&mut s, self.sum);
        s.append("\n");
        s.append("hpn_request_latency_ms_count ");
        push_decimal(&mut s, self.count);
        s.append("\n");
        s
    }
}

/// Metrics summary for logging.
#[derive(Clone, Copy, Debug, PartialEq, Eq, Structural)]
pub struct MetricsSummary {
    pub uptime_secs: u64,
    pub sessions_active: u64,
    pub sessions_total: u64,
    pub bytes_sent: u64,
    pub bytes_received: u64,
    pub packets_sent: u64,
    pub packets_received: u64,
    pub packets_dropped: u64,
    pub decryption_errors: u64,
    pub handshakes_success: u64,
    pub handshakes_failed: u64,
}

impl MetricsSummary {
    /// The summary as one line.
    pub open spec fn line(self) -> Seq<char> {
        "uptime="@ + decimal(self.uptime_secs as nat) + "s sessions="@ + decimal(
            self.sessions_active as nat,
        ) + "/"@ + decimal(self.sessions_total as nat) + " bytes_tx="@ + byte_text(
            self.bytes_sent as nat,
            ""@,
        ) + " bytes_rx="@ + byte_text(self.bytes_received as nat, ""@) + " pkts_tx="@ + decimal(
            self.packets_sent as nat,
        ) + " pkts_rx="@ + decimal(self.packets_received as nat) + " pkts_drop="@ + decimal(
            self.packets_dropped as nat,
        ) + " decrypt_err="@ + decimal(self.decryption_errors as nat) + " hs_ok="@ + decimal(
            self.handshakes_success as nat,
        ) + " hs_fail="@ + decimal(self.handshakes_failed as nat)
    }

    /// Format for structured logging.
    pub fn format(&self) -> (s: String)
        ensures
            s@ == self.line(),
    {
        let mut s = String::from_str("uptime=");
        push_decimal(&mut s, self.uptime_secs);
        s.append("s sessions=");
        push_decimal(&mut s, self.sessions_active);
        s.append("/");
        push_decimal(&mut s, self.sessions_total);
        s.append(" bytes_tx=");
        let sent = format_bytes(self.bytes_sent);
        s.append(sent.as_str());
        s.append(" bytes_rx=");
        let received = format_bytes(self.bytes_received);
        s.append(received.as_str());
        s.append(" pkts_tx=");
        push_decimal(&mut s, self.packets_sent);
        s.append(" pkts_rx=");
        push_decimal(&mut s, self.packets_received);
        s.append(" pkts_drop=");
        push_decimal(&mut s, self.packets_dropped);
        s.append(" decrypt_err=");
        push_decimal(&mut s, self.decryption_errors);
        s.append(" hs_ok=");
        push_decimal(&mut s, self.handshakes_success);
        s.append(" hs_fail=");
        push_decimal(&mut s, self.handshakes_failed);
        s
    }
}

/// Format bytes as human-readable string.
pub fn format_bytes(bytes: u64) -> (s: String)
    ensures
        s@ == byte_text(bytes as nat, ""@),
{
    human_bytes(bytes, "")
}

/// Server metrics collection.
pub struct ServerMetrics {
    /// Total handshakes initiated.
    pub handshakes_total: Metric,
    /// Successful handshakes.
    pub handshakes_success: Metric,
    /// Failed handshakes.
    pub handshakes_failed: Metric,
    /// Active sessions (gauge).
    pub sessions_active: Metric,
    /// Total sessions created.
    pub sessions_total: Metric,
    /// Sessions timed out.
    pub sessions_timeout: Metric,
    /// Total bytes received from clients.
    pub bytes_received: Metric,
    /// Total bytes sent to clients.
    pub bytes_sent: Metric,
    /// Total packets received.
    pub packets_received: Metric,
    /// Total packets sent.
    pub packets_sent: Metric,
    /// Packets dropped (invalid, replay, etc.).
    pub packets_dropped: Metric,
    /// Decryption failures.
    pub decryption_errors: Metric,
    /// Invalid packets (bad header, etc.).
    pub invalid_packets: Metric,
    /// Anti-replay rejections.
    pub replay_rejections: Metric,
    /// Handshakes rejected by rate limiting.
    pub handshakes_rate_limited: Metric,
    /// Session packets rejected by per-session rate limiting.
    pub session_rate_limited: Metric,
    /// Packets dropped because the source address did not match the
    /// session-bound `client_addr` after AEAD success.
    pub address_mismatch_drops: Metric,
    /// Authentications refused due to a (username, ip) tuple lockout.
    pub auth_lockout_tuple_total: Metric,
    /// Authentications refused due to a per-IP cross-username ban.
    pub auth_lockout_ip_total: Metric,
    /// Authentications refused due to a global username spread lock.
    pub auth_lockout_username_total: Metric,
    /// Rekey operations.
    pub rekeys_total: Metric,
    /// Control messages processed.
    pub control_messages: Metric,
    /// Keepalives received.
    pub keepalives_received: Metric,
    /// Total worker panics.
    pub worker_panics_total: Metric,
    /// Current degraded mode flag (1 = degraded, 0 = healthy).
    pub degraded_mode: Metric,
    /// Worker restarts attempted.
    pub worker_restarts_total: Metric,
    /// Distribution of latencies.
    pub latency_buckets: LatencyHistogram,
    /// Counts from the start of the server.
    pub clock: Clock,
}

/// The head of the export: how long the server has been up.
pub open spec fn uptime_text(uptime: u64) -> Seq<char> {
    "# HELP hpn_uptime_seconds Server uptime in seconds\n# TYPE hpn_uptime_seconds counter\nhpn_uptime_seconds "@
        + decimal(uptime as nat) + "\n\n"@
}

/// Whether a metric is a counter or gauge of this name and help.
pub open spec fn is_metric(m: Metric, kind: MetricType, name: Seq<char>, help: Seq<char>) -> bool {
    m.metric_type == kind && m.name@ == name && m.help@ == help
}

impl ServerMetrics {
    /// Every metric has its kind, name and help, and the histogram its buckets.
    pub open spec fn wf(self) -> bool {
        &&& self.latency_buckets.wf()
        &&& is_metric(
            self.handshakes_total,
            MetricType::Counter,
            "hpn_handshakes_total"@,
            "Total handshake attempts"@,
        )
        &&& is_metric(
            self.handshakes_success,
            MetricType::Counter,
            "hpn_handshakes_success_total"@,
            "Successful handshakes"@,
        )
        &&& is_metric(
            self.handshakes_failed,
            MetricType::Counter,
            "hpn_handshakes_failed_total"@,
            "Failed handshakes"@,
        )
        &&& is_metric(
            self.sessions_active,
            MetricType::Gauge,
            "hpn_sessions_active"@,
            "Currently active sessions"@,
        )
        &&& is_metric(
            self.sessions_total,
            MetricType::Counter,
            "hpn_sessions_total"@,
            "Total sessions created"@,
        )
        &&& is_metric(
            self.sessions_timeout,
            MetricType::Counter,
            "hpn_sessions_timeout_total"@,
            "Sessions timed out"@,
        )
        &&& is_metric(
            self.bytes_received,
            MetricType::Counter,
            "hpn_bytes_received_total"@,
            "Total bytes received from clients"@,
        )
        &&& is_metric(
            self.bytes_sent,
            MetricType::Counter,
            "hpn_bytes_sent_total"@,
            "Total bytes sent to clients"@,
        )
        &&& is_metric(
            self.packets_received,
            MetricType::Counter,
            "hpn_packets_received_total"@,
            "Total packets received"@,
        )
        &&& is_metric(
            self.packets_sent,
            MetricType::Counter,
            "hpn_packets_sent_total"@,
            "Total packets sent"@,
        )
        &&& is_metric(
            self.packets_dropped,
            MetricType::Counter,
            "hpn_packets_dropped_total"@,
            "Packets dropped"@,
        )
        &&& is_metric(
            self.decryption_errors,
            MetricType::Counter,
            "hpn_decryption_errors_total"@,
            "Decryption failures"@,
        )
        &&& is_metric(
            self.invalid_packets,
            MetricType::Counter,
            "hpn_invalid_packets_total"@,
            "Invalid packets (bad header, etc.)"@,
        )
        &&& is_metric(
            self.replay_rejections,
            MetricType::Counter,
            "hpn_replay_rejections_total"@,
            "Anti-replay rejections"@,
        )
        &&& is_metric(
            self.handshakes_rate_limited,
            MetricType::Counter,
            "hpn_handshakes_rate_limited_total"@,
            "Handshakes rejected by rate limiting"@,
        )
        &&& is_metric(
            self.session_rate_limited,
            MetricType::Counter,
            "hpn_session_rate_limited_total"@,
            "Session packets rejected by per-session rate limiting"@,
        )
        &&& is_metric(
            self.address_mismatch_drops,
            MetricType::Counter,
            "hpn_address_mismatch_drops_total"@,
            "Packets dropped because the source address did not match the session-bound client_addr (FIX-010)"@,
        )
        &&& is_metric(
            self.auth_lockout_tuple_total,
            MetricType::Counter,
            "hpn_auth_lockout_tuple_total"@,
            "Auth attempts refused due to a (username, ip) tuple lockout"@,
        )
        &&& is_metric(
            self.auth_lockout_ip_total,
            MetricType::Counter,
            "hpn_auth_lockout_ip_total"@,
            "Auth attempts refused due to a per-IP cross-username ban"@,
        )
        &&& is_metric(
            self.auth_lockout_username_total,
            MetricType::Counter,
            "hpn_auth_lockout_username_total"@,
            "Auth attempts refused due to a global username spread lock"@,
        )
        &&& is_metric(
            self.rekeys_total,
            MetricType::Counter,
            "hpn_rekeys_total"@,
            "Total rekey operations"@,
        )
        &&& is_metric(
            self.control_messages,
            MetricType::Counter,
            "hpn_control_messages_total"@,
            "Control messages processed"@,
        )
        &&& is_metric(
            self.keepalives_received,
            MetricType::Counter,
            "hpn_keepalives_total"@,
            "Keepalives received"@,
        )
        &&& is_metric(
            self.worker_panics_total,
            MetricType::Counter,
            "hpn_worker_panics_total"@,
            "Total worker thread panics"@,
        )
        &&& is_metric(
            self.degraded_mode,
            MetricType::Gauge,
            "hpn_degraded_mode"@,
            "Server degraded mode (1=degraded, 0=healthy)"@,
        )
        &&& is_metric(
            self.worker_restarts_total,
            MetricType::Counter,
            "hpn_worker_restarts_total"@,
            "Worker restart attempts"@,
        )
    }

    /// Nothing counted.
    pub open spec fn all_zero(self) -> bool {
        &&& self.latency_buckets.counts@ == Seq::new(9, |i: int| 0u64)
        &&& self.latency_buckets.overflow == 0
        &&& self.latency_buckets.sum == 0
        &&& self.latency_buckets.count == 0
        &&& self.handshakes_total.value == 0
        &&& self.handshakes_success.value == 0
        &&& self.handshakes_failed.value == 0
        &&& self.sessions_active.value == 0
        &&& self.sessions_total.value == 0
        &&& self.sessions_timeout.value == 0
        &&& self.bytes_received.value == 0
        &&& self.bytes_sent.value == 0
        &&& self.packets_received.value == 0
        &&& self.packets_sent.value == 0
        &&& self.packets_dropped.value == 0
        &&& self.decryption_errors.value == 0
        &&& self.invalid_packets.value == 0
        &&& self.replay_rejections.value == 0
        &&& self.handshakes_rate_limited.value == 0
        &&& self.session_rate_limited.value == 0
        &&& self.address_mismatch_drops.value == 0
        &&& self.auth_lockout_tuple_total.value == 0
        &&& self.auth_lockout_ip_total.value == 0
        &&& self.auth_lockout_username_total.value == 0
        &&& self.rekeys_total.value == 0
        &&& self.control_messages.value == 0
        &&& self.keepalives_received.value == 0
        &&& self.worker_panics_total.value == 0
        &&& self.degraded_mode.value == 0
        &&& self.worker_restarts_total.value == 0
    }

    /// All metrics after `uptime` seconds in the Prometheus text format.
    pub open spec fn prometheus_text(self, uptime: u64) -> Seq<char> {
        uptime_text(uptime)
            + self.handshakes_total.text()
            + self.handshakes_success.text()
            + self.handshakes_failed.text()
            + self.sessions_active.text()
            + self.sessions_total.text()
            + self.sessions_timeout.text()
            + self.bytes_received.text()
            + self.bytes_sent.text()
            + self.packets_received.text()
            + self.packets_sent.text()
            + self.packets_dropped.text()
            + self.decryption_errors.text()
            + self.invalid_packets.text()
            + self.replay_rejections.text()
            + self.handshakes_rate_limited.text()
            + self.session_rate_limited.text()
            + self.address_mismatch_drops.text()
            + self.auth_lockout_tuple_total.text()
            + self.auth_lockout_ip_total.text()
            + self.auth_lockout_username_total.text()
            + self.rekeys_total.text()
            + self.control_messages.text()
            + self.keepalives_received.text()
            + self.worker_panics_total.text()
            + self.degraded_mode.text()
            + self.worker_restarts_total.text()
            + self.latency_buckets.text()
    }

    /// After a handshake attempt.
    pub open spec fn handshake_recorded(self, success: bool) -> ServerMetrics {
        ServerMetrics {
            handshakes_total: self.handshakes_total.plus(1),
            handshakes_success: if success {
                self.handshakes_success.plus(1)
            } else {
                self.handshakes_success
            },
            handshakes_failed: if success {
                self.handshakes_failed
            } else {
                self.handshakes_failed.plus(1)
            },
            ..self
        }
    }

    /// After a new session.
    pub open spec fn session_created_recorded(self) -> ServerMetrics {
        ServerMetrics {
            sessions_total: self.sessions_total.plus(1),
            sessions_active: self.sessions_active.plus(1),
            ..self
        }
    }

    /// After a session ended.
    pub open spec fn session_ended_recorded(self, timeout: bool) -> ServerMetrics {
        ServerMetrics {
            sessions_active: self.sessions_active.minus_one(),
            sessions_timeout: if timeout {
                self.sessions_timeout.plus(1)
            } else {
                self.sessions_timeout
            },
            ..self
        }
    }

    /// After bytes were sent and received.
    pub open spec fn bytes_recorded(self, sent: u64, received: u64) -> ServerMetrics {
        ServerMetrics {
            bytes_sent: self.bytes_sent.plus(sent as nat),
            bytes_received: self.bytes_received.plus(received as nat),
            ..self
        }
    }

    /// After packets were sent and received.
    pub open spec fn packets_recorded(self, sent: u64, received: u64) -> ServerMetrics {
        ServerMetrics {
            packets_sent: self.packets_sent.plus(sent as nat),
            packets_received: self.packets_received.plus(received as nat),
            ..self
        }
    }

    /// After a packet was dropped.
    pub open spec fn packet_drop_recorded(self) -> ServerMetrics {
        ServerMetrics {
            packets_dropped: self.packets_dropped.plus(1),
            ..self
        }
    }

    /// After a decryption failed.
    pub open spec fn decryption_error_recorded(self) -> ServerMetrics {
        ServerMetrics {
            decryption_errors: self.decryption_errors.plus(1),
            ..self
        }
    }

    /// After an invalid packet.
    pub open spec fn invalid_packet_recorded(self) -> ServerMetrics {
        ServerMetrics {
            invalid_packets: self.invalid_packets.plus(1),
            ..self
        }
    }

    /// After a replay was rejected.
    pub open spec fn replay_rejection_recorded(self) -> ServerMetrics {
        ServerMetrics {
            replay_rejections: self.replay_rejections.plus(1),
            ..self
        }
    }

    /// After a handshake was limited.
    pub open spec fn rate_limited_recorded(self) -> ServerMetrics {
        ServerMetrics {
            handshakes_rate_limited: self.handshakes_rate_limited.plus(1),
            ..self
        }
    }

    /// After a packet of a session was limited.
    pub open spec fn session_rate_limited_recorded(self) -> ServerMetrics {
        ServerMetrics {
            session_rate_limited: self.session_rate_limited.plus(1),
            ..self
        }
    }

    /// After a rekey.
    pub open spec fn rekey_recorded(self) -> ServerMetrics {
        ServerMetrics {
            rekeys_total: self.rekeys_total.plus(1),
            ..self
        }
    }

    /// After a control message.
    pub open spec fn control_message_recorded(self) -> ServerMetrics {
        ServerMetrics {
            control_messages: self.control_messages.plus(1),
            ..self
        }
    }

    /// After a keepalive.
    pub open spec fn keepalive_recorded(self) -> ServerMetrics {
        ServerMetrics {
            keepalives_received: self.keepalives_received.plus(1),
            ..self
        }
    }

    /// After a worker restart was attempted.
    pub open spec fn worker_restart_recorded(self) -> ServerMetrics {
        ServerMetrics {
            worker_restarts_total: self.worker_restarts_total.plus(1),
            ..self
        }
    }

    /// After a packet was dropped for its address, which counts as a dropped packet too.
    pub open spec fn address_mismatch_drop_recorded(self) -> ServerMetrics {
        ServerMetrics {
            address_mismatch_drops: self.address_mismatch_drops.plus(1),
            packets_dropped: self.packets_dropped.plus(1),
            ..self
        }
    }

    /// After an authentication lockout.
    pub open spec fn auth_lockout_recorded(self, kind: LockoutKind) -> ServerMetrics {
        ServerMetrics {
            auth_lockout_tuple_total: if kind is Tuple {
                self.auth_lockout_tuple_total.plus(1)
            } else {
                self.auth_lockout_tuple_total
            },
            auth_lockout_ip_total: if kind is Ip {
                self.auth_lockout_ip_total.plus(1)
            } else {
                self.auth_lockout_ip_total
            },
            auth_lockout_username_total: if kind is UsernameSpread {
                self.auth_lockout_username_total.plus(1)
            } else {
                self.auth_lockout_username_total
            },
            ..self
        }
    }

    /// After a worker panic.
    pub open spec fn worker_panic_recorded(self) -> ServerMetrics {
        ServerMetrics {
            worker_panics_total: self.worker_panics_total.plus(1),
            ..self
        }
    }

    /// After the degraded mode flag was set.
    pub open spec fn degraded_mode_set(self, degraded: bool) -> ServerMetrics {
        ServerMetrics {
            degraded_mode: Metric {
                value: if degraded {
                    1
                } else {
                    0
                },
                ..self.degraded_mode
            },
            ..self
        }
    }

    /// The summary after `uptime` seconds.
    pub open spec fn summary_of(self, uptime: u64) -> MetricsSummary {
        MetricsSummary {
            uptime_secs: uptime,
            sessions_active: self.sessions_active.value,
            sessions_total: self.sessions_total.value,
            bytes_sent: self.bytes_sent.value,
            bytes_received: self.bytes_received.value,
            packets_sent: self.packets_sent.value,
            packets_received: self.packets_received.value,
            packets_dropped: self.packets_dropped.value,
            decryption_errors: self.decryption_errors.value,
            handshakes_success: self.handshakes_success.value,
            handshakes_failed: self.handshakes_failed.value,
        }
    }

    /// Create a new metrics instance.
    pub fn new() -> (m: ServerMetrics)
        ensures
            m.wf(),
            m.all_zero(),
            m.clock.started(),
    {
        ServerMetrics {
            handshakes_total: Metric::counter(
                "hpn_handshakes_total",
                "Total handshake attempts",
            ),
            handshakes_success: Metric::counter(
                "hpn_handshakes_success_total",
                "Successful handshakes",
            ),
            handshakes_failed: Metric::counter(
                "hpn_handshakes_failed_total",
                "Failed handshakes",
            ),
            sessions_active: Metric::gauge(
                "hpn_sessions_active",
                "Currently active sessions",
            ),
            sessions_total: Metric::counter(
                "hpn_sessions_total",
                "Total sessions created",
            ),
            sessions_timeout: Metric::counter(
                "hpn_sessions_timeout_total",
                "Sessions timed out",
            ),
            bytes_received: Metric::counter(
                "hpn_bytes_received_total",
                "Total bytes received from clients",
            ),
            bytes_sent: Metric::counter(
                "hpn_bytes_sent_total",
                "Total bytes sent to clients",
            ),
            packets_received: Metric::counter(
                "hpn_packets_received_total",
                "Total packets received",
            ),
            packets_sent: Metric::counter(
                "hpn_packets_sent_total",
                "Total packets sent",
            ),
            packets_dropped: Metric::counter(
                "hpn_packets_dropped_total",
                "Packets dropped",
            ),
            decryption_errors: Metric::counter(
                "hpn_decryption_errors_total",
                "Decryption failures",
            ),
            invalid_packets: Metric::counter(
                "hpn_invalid_packets_total",
                "Invalid packets (bad header, etc.)",
            ),
            replay_rejections: Metric::counter(
                "hpn_replay_rejections_total",
                "Anti-replay rejections",
            ),
            handshakes_rate_limited: Metric::counter(
                "hpn_handshakes_rate_limited_total",
                "Handshakes rejected by rate limiting",
            ),
            session_rate_limited: Metric::counter(
                "hpn_session_rate_limited_total",
                "Session packets rejected by per-session rate limiting",
            ),
            address_mismatch_drops: Metric::counter(
                "hpn_address_mismatch_drops_total",
                "Packets dropped because the source address did not match the session-bound client_addr (FIX-010)",
            ),
            auth_lockout_tuple_total: Metric::counter(
                "hpn_auth_lockout_tuple_total",
                "Auth attempts refused due to a (username, ip) tuple lockout",
            ),
            auth_lockout_ip_total: Metric::counter(
                "hpn_auth_lockout_ip_total",
                "Auth attempts refused due to a per-IP cross-username ban",
            ),
            auth_lockout_username_total: Metric::counter(
                "hpn_auth_lockout_username_total",
                "Auth attempts refused due to a global username spread lock",
            ),
            rekeys_total: Metric::counter(
                "hpn_rekeys_total",
                "Total rekey operations",
            ),
            control_messages: Metric::counter(
                "hpn_control_messages_total",
                "Control messages processed",
            ),
            keepalives_received: Metric::counter(
                "hpn_keepalives_total",
                "Keepalives received",
            ),
            worker_panics_total: Metric::counter(
                "hpn_worker_panics_total",
                "Total worker thread panics",
            ),
            degraded_mode: Metric::gauge(
                "hpn_degraded_mode",
                "Server degraded mode (1=degraded, 0=healthy)",
            ),
            worker_restarts_total: Metric::counter(
                "hpn_worker_restarts_total",
                "Worker restart attempts",
            ),
            latency_buckets: LatencyHistogram::new(),
            clock: Clock::start(),
        }
    }

    /// Record a handshake attempt.
    pub fn record_handshake(&mut self, success: bool)
        ensures
            *final(self) == old(self).handshake_recorded(success),
    {
        self.handshakes_total.inc();
        if success {
            self.handshakes_success.inc();
        } else {
            self.handshakes_failed.inc();
        }
    }

    /// Record a new session.
    pub fn record_session_created(&mut self)
        ensures
            *final(self) == old(self).session_created_recorded(),
    {
        self.sessions_total.inc();
        self.sessions_active.inc();
    }

    /// Record a session ended.
    pub fn record_session_ended(&mut self, timeout: bool)
        ensures
            *final(self) == old(self).session_ended_recorded(timeout),
    {
        self.sessions_active.dec();
        if timeout {
            self.sessions_timeout.inc();
        }
    }

    /// Record bytes sent/received.
    pub fn record_bytes(&mut self, sent: u64, received: u64)
        ensures
            *final(self) == old(self).bytes_recorded(sent, received),
    {
        self.bytes_sent.inc_by(sent);
        self.bytes_received.inc_by(received);
    }

    /// Record packets sent/received.
    pub fn record_packets(&mut self, sent: u64, received: u64)
        ensures
            *final(self) == old(self).packets_recorded(sent, received),
    {
        self.packets_sent.inc_by(sent);
        self.packets_received.inc_by(received);
    }

    /// Record a packet drop.
    pub fn record_packet_drop(&mut self)
        ensures
            *final(self) == old(self).packet_drop_recorded(),
    {
        self.packets_dropped.inc();
    }

    /// Record a decryption error.
    pub fn record_decryption_error(&mut self)
        ensures
            *final(self) == old(self).decryption_error_recorded(),
    {
        self.decryption_errors.inc();
    }

    /// Record an invalid packet.
    pub fn record_invalid_packet(&mut self)
        ensures
            *final(self) == old(self).invalid_packet_recorded(),
    {
        self.invalid_packets.inc();
    }

    /// Record a replay rejection.
    pub fn record_replay_rejection(&mut self)
        ensures
            *final(self) == old(self).replay_rejection_recorded(),
    {
        self.replay_rejections.inc();
    }

    /// Record a rate-limited handshake.
    pub fn record_rate_limited(&mut self)
        ensures
            *final(self) == old(self).rate_limited_recorded(),
    {
        self.handshakes_rate_limited.inc();
    }

    /// Record a session rate-limited packet.
    pub fn record_session_rate_limited(&mut self)
        ensures
            *final(self) == old(self).session_rate_limited_recorded(),
    {
        self.session_rate_limited.inc();
    }

    /// Record a rekey.
    pub fn record_rekey(&mut self)
        ensures
            *final(self) == old(self).rekey_recorded(),
    {
        self.rekeys_total.inc();
    }

    /// Record a control message.
    pub fn record_control_message(&mut self)
        ensures
            *final(self) == old(self).control_message_recorded(),
    {
        self.control_messages.inc();
    }

    /// Record a keepalive.
    pub fn record_keepalive(&mut self)
        ensures
            *final(self) == old(self).keepalive_recorded(),
    {
        self.keepalives_received.inc();
    }

    /// Record a worker restart attempt.
    pub fn record_worker_restart(&mut self)
        ensures
            *final(self) == old(self).worker_restart_recorded(),
    {
        self.worker_restarts_total.inc();
    }

    /// Record a packet dropped because its source address did not match the address that the
    /// session is bound to. It counts as a dropped packet too.
    pub fn record_address_mismatch_drop(&mut self)
        ensures
            *final(self) == old(self).address_mismatch_drop_recorded(),
    {
        self.address_mismatch_drops.inc();
        self.packets_dropped.inc();
    }

    /// Record an authentication lockout that fired.
    pub fn record_auth_lockout(&mut self, kind: LockoutKind)
        ensures
            *final(self) == old(self).auth_lockout_recorded(kind),
    {
        match kind {
            LockoutKind::Tuple => self.auth_lockout_tuple_total.inc(),
            LockoutKind::Ip => self.auth_lockout_ip_total.inc(),
            LockoutKind::UsernameSpread => self.auth_lockout_username_total.inc(),
        }
    }

    /// Record a worker panic. Returns the new total panic count.
    pub fn record_worker_panic(&mut self) -> (n: u64)
        ensures
            n == old(self).worker_panics_total.plus(1).value,
            *final(self) == old(self).worker_panic_recorded(),
    {
        self.worker_panics_total.inc();
        self.worker_panics_total.get()
    }

    /// Set degraded mode flag.
    pub fn set_degraded_mode(&mut self, degraded: bool)
        ensures
            *final(self) == old(self).degraded_mode_set(degraded),
    {
        let v: u64 = if degraded {
            1
        } else {
            0
        };
        self.degraded_mode.set(v);
    }

    /// Check if server is in degraded mode.
    pub fn is_degraded(&self) -> (b: bool)
        ensures
            b == (self.degraded_mode.value != 0),
    {
        self.degraded_mode.get() != 0
    }

    /// Get worker panic count.
    pub fn worker_panic_count(&self) -> (n: u64)
        ensures
            n == self.worker_panics_total.value,
    {
        self.worker_panics_total.get()
    }

    /// Record latency in milliseconds.
    pub fn record_latency_ms(&mut self, latency_ms: u64)
        requires
            old(self).latency_buckets.wf(),
        ensures
            final(self).latency_buckets.wf(),
            old(self).latency_buckets.gained(final(self).latency_buckets, latency_ms),
            final(self).latency_buckets.sum == bumped(
                old(self).latency_buckets.sum,
                latency_ms as nat,
            ),
            final(self).latency_buckets.count == bumped(old(self).latency_buckets.count, 1),
            ({
                let b = bucket_from(latency_bounds(), latency_ms, 0);
                if b < latency_bounds().len() {
                    &&& final(self).latency_buckets.counts@
                        == old(self).latency_buckets.counts@.update(
                        b,
                        bumped(old(self).latency_buckets.counts@[b], 1),
                    )
                    &&& final(self).latency_buckets.overflow == old(self).latency_buckets.overflow
                } else {
                    &&& final(self).latency_buckets.counts@ == old(self).latency_buckets.counts@
                    &&& final(self).latency_buckets.overflow == bumped(
                        old(self).latency_buckets.overflow,
                        1,
                    )
                }
            }),
            *final(self) == (ServerMetrics {
                latency_buckets: final(self).latency_buckets,
                ..*old(self)
            }),
    {
        self.latency_buckets.record(latency_ms);
    }

    /// Get uptime in seconds.
    pub fn uptime_secs(&self) -> (secs: u64)
        ensures
            self.clock.reads_secs(secs),
    {
        self.clock.now_ms() / 1000
    }

    /// Export all metrics in Prometheus format after `uptime` seconds.
    pub fn export_prometheus_at(&self, uptime: u64) -> (s: String)
        requires
            self.latency_buckets.wf(),
        ensures
            s@ == self.prometheus_text(uptime),
    {
        let mut s = String::from_str(
            "# HELP hpn_uptime_seconds Server uptime in seconds\n# TYPE hpn_uptime_seconds counter\nhpn_uptime_seconds ",
        );
        push_decimal(&mut s, uptime);
        s.append("\n\n");
        push_metric(&mut s, &self.handshakes_total);
        push_metric(&mut s, &self.handshakes_success);
        push_metric(&mut s, &self.handshakes_failed);
        push_metric(&mut s, &self.sessions_active);
        push_metric(&mut s, &self.sessions_total);
        push_metric(&mut s, &self.sessions_timeout);
        push_metric(&mut s, &self.bytes_received);
        push_metric(&mut s, &self.bytes_sent);
        push_metric(&mut s, &self.packets_received);
        push_metric(&mut s, &self.packets_sent);
        push_metric(&mut s, &self.packets_dropped);
        push_metric(&mut s, &self.decryption_errors);
        push_metric(&mut s, &self.invalid_packets);
        push_metric(&mut s, &self.replay_rejections);
        push_metric(&mut s, &self.handshakes_rate_limited);
        push_metric(&mut s, &self.session_rate_limited);
        push_metric(&mut s, &self.address_mismatch_drops);
        push_metric(&mut s, &self.auth_lockout_tuple_total);
        push_metric(&mut s, &self.auth_lockout_ip_total);
        push_metric(&mut s, &self.auth_lockout_username_total);
        push_metric(&mut s, &self.rekeys_total);
        push_metric(&mut s, &self.control_messages);
        push_metric(&mut s, &self.keepalives_received);
        push_metric(&mut s, &self.worker_panics_total);
        push_metric(&mut s, &self.degraded_mode);
        push_metric(&mut s, &self.worker_restarts_total);
        let latency = self.latency_buckets.format_prometheus();
        s.append(latency.as_str());
        s
    }

    /// Export all metrics in Prometheus format.
    pub fn export_prometheus(&self) -> (s: String)
        requires
            self.latency_buckets.wf(),
        ensures
            exists|uptime: u64|
                self.clock.reads_secs(uptime) && s@ == #[trigger] self.prometheus_text(uptime),
    {
        let uptime: u64 = self.uptime_secs();
        self.export_prometheus_at(uptime)
    }

    /// Get a summary of metrics after `uptime` seconds.
    pub fn summary_at(&self, uptime: u64) -> (s: MetricsSummary)
        ensures
            s == self.summary_of(uptime),
    {
        MetricsSummary {
            uptime_secs: uptime,
            sessions_active: self.sessions_active.get(),
            sessions_total: self.sessions_total.get(),
            bytes_sent: self.bytes_sent.get(),
            bytes_received: self.bytes_received.get(),
            packets_sent: self.packets_sent.get(),
            packets_received: self.packets_received.get(),
            packets_dropped: self.packets_dropped.get(),
            decryption_errors: self.decryption_errors.get(),
            handshakes_success: self.handshakes_success.get(),
            handshakes_failed: self.handshakes_failed.get(),
        }
    }

    /// Get a summary of metrics for logging.
    pub fn summary(&self) -> (s: MetricsSummary)
        ensures
            s == self.summary_of(s.uptime_secs),
            self.clock.reads_secs(s.uptime_secs),
    {
        let uptime: u64 = self.uptime_secs();
        self.summary_at(uptime)
    }
}

impl Default for ServerMetrics {
    fn default() -> (m: ServerMetrics)
        ensures
            m.wf(),
            m.all_zero(),
            m.clock.started(),
    {
        ServerMetrics::new()
    }
}

/// Appends a metric.
fn push_metric(out: &mut String, m: &Metric)
    ensures
        final(out)@ == old(out)@ + m.text(),
{
    let t = m.format_prometheus();
    out.append(t.as_str());
}

/// An answer of the metrics endpoint.
pub struct MetricsResponse {
    pub status: u16,
    pub content_type: Option<&'static str>,
    pub body: String,
}

/// The page at the root.
pub const METRICS_PAGE: &'static str =
    "<!DOCTYPE html>\n<html>\n<head><title>HPN VPN Server Metrics</title></head>\n<body>\n<h1>HPN VPN Server</h1>\n<p><a href=\"/metrics\">Prometheus Metrics</a></p>\n<p><a href=\"/health\">Health Check</a></p>\n</body>\n</html>";

/// The answer to a request: its status, content type and body.
pub open spec fn metrics_answer(
    method: Seq<char>,
    path: Seq<char>,
    m: ServerMetrics,
    uptime: u64,
) -> (u16, Option<Seq<char>>, Seq<char>) {
    if method == "GET"@ && path == "/metrics"@ {
        (
            200,
            Some("text/plain; version=0.0.4; charset=utf-8"@),
            m.prometheus_text(uptime),
        )
    } else if method == "GET"@ && path == "/health"@ {
        (200, Some("text/plain"@), "OK"@)
    } else if method == "GET"@ && path == "/"@ {
        (200, Some("text/html"@), METRICS_PAGE@)
    } else {
        (404, None, "Not Found"@)
    }
}

impl MetricsResponse {
    /// Status, content type and body.
    pub open spec fn parts(self) -> (u16, Option<Seq<char>>, Seq<char>) {
        (
            self.status,
            match self.content_type {
                Some(t) => Some(t@),
                None => None,
            },
            self.body@,
        )
    }
}

/// Handle a request to the metrics endpoint after `uptime` seconds.
pub fn handle_request(method: &str, path: &str, metrics: &ServerMetrics, uptime: u64) -> (r:
    MetricsResponse)
    requires
        metrics.latency_buckets.wf(),
    ensures
        r.parts() == metrics_answer(method@, path@, *metrics, uptime),
{
    let get = same_text(method, "GET");
    if get && same_text(path, "/metrics") {
        MetricsResponse {
            status: 200,
            content_type: Some("text/plain; version=0.0.4; charset=utf-8"),
            body: metrics.export_prometheus_at(uptime),
        }
    } else if get && same_text(path, "/health") {
        MetricsResponse {
            status: 200,
            content_type: Some("text/plain"),
            body: String::from_str("OK"),
        }
    } else if get && same_text(path, "/") {
        MetricsResponse {
            status: 200,
            content_type: Some("text/html"),
            body: String::from_str(METRICS_PAGE),
        }
    } else {
        MetricsResponse { status: 404, content_type: None, body: String::from_str("Not Found") }
    }
}

/// The buckets are cumulative: a later one never counts less, and the last one counts all.
pub proof fn law_buckets_are_cumulative(h: LatencyHistogram, i: int, j: int)
    requires
        h.wf(),
        0 <= i <= j <= h.counts@.len(),
    ensures
        count_sum(h.counts@, i) <= count_sum(h.counts@, j),
        count_sum(h.counts@, j) <= h.total(),
    decreases h.counts@.len() - i,
{
    lemma_count_sum_monotone(h.counts@, i, j);
    lemma_count_sum_monotone(h.counts@, j, h.counts@.len() as int);
}

proof fn lemma_count_sum_monotone(c: Seq<u64>, i: int, j: int)
    requires
        0 <= i <= j <= c.len(),
    ensures
        count_sum(c, i) <= count_sum(c, j),
    decreases j - i,
{
    if i < j {
        lemma_count_sum_monotone(c, i, j - 1);
    }
}

proof fn lemma_count_sum_update(c: Seq<u64>, b: int, v: u64, n: int)
    requires
        0 <= b < c.len(),
        0 <= n <= c.len(),
    ensures
        count_sum(c.update(b, v), n) == count_sum(c, n) + (if b < n {
            v - c[b]
        } else {
            0
        }),
    decreases n,
{
    if n > 0 {
        lemma_count_sum_update(c, b, v, n - 1);
    }
}

/// Every value is counted exactly once: while no counter wraps around, the last bucket agrees
/// with the number of values before and after each record.
pub proof fn law_every_value_is_counted_once(h: LatencyHistogram, g: LatencyHistogram, value_ms: u64)
    requires
        h.wf(),
        h.total() == h.count,
        h.count < u64::MAX,
        g.count == bumped(h.count, 1),
        ({
            let b = bucket_from(latency_bounds(), value_ms, 0);
            if b < latency_bounds().len() {
                &&& g.counts@ == h.counts@.update(b, bumped(h.counts@[b], 1))
                &&& g.overflow == h.overflow
            } else {
                &&& g.counts@ == h.counts@
                &&& g.overflow == bumped(h.overflow, 1)
            }
        }),
    ensures
        g.total() == g.count,
{
    let b = bucket_from(latency_bounds(), value_ms, 0);
    lemma_bucket_range(latency_bounds(), value_ms, 0);
    if b < latency_bounds().len() {
        lemma_count_sum_monotone(h.counts@, 0, b);
        lemma_count_sum_monotone(h.counts@, b + 1, h.counts@.len() as int);
        assert(h.counts@[b] <= count_sum(h.counts@, b + 1));
        lemma_count_sum_update(h.counts@, b, bumped(h.counts@[b], 1), h.counts@.len() as int);
    }
}

proof fn lemma_bucket_range(bounds: Seq<u64>, value: u64, i: int)
    requires
        0 <= i <= bounds.len(),
    ensures
        i <= bucket_from(bounds, value, i) <= bounds.len(),
    decreases bounds.len() - i,
{
    if i < bounds.len() && value > bounds[i] {
        lemma_bucket_range(bounds, value, i + 1);
    }
}

/// A gauge never falls below zero, and a decrement undoes an increment that did not wrap.
pub proof fn law_gauge_stays_above_zero(m: Metric)
    ensures
        m.value == 0 ==> m.minus_one() == m,
        m.value < u64::MAX ==> m.plus(1).minus_one() == m,
{
}

/// A value falls into the first bucket whose bound it does not exceed; only values above all
/// bounds, more than a second, fall into none.
pub proof fn law_values_fall_into_their_bucket(value: u64)
    ensures
        ({
            let b = bucket_from(latency_bounds(), value, 0);
            &&& 0 <= b <= 9
            &&& b < 9 ==> value <= latency_bounds()[b]
            &&& b > 0 ==> value > latency_bounds()[b - 1]
            &&& b == 9 <==> value > 1000
        }),
{
    reveal_with_fuel(bucket_from, 11);
}

/// Counting adds exactly what is said, and nothing of a metric but its value changes.
pub proof fn law_metrics_add_up(m: Metric, n: nat)
    requires
        m.value + n <= u64::MAX,
    ensures
        m.plus(n).value == m.value + n,
        m.plus(n) == (Metric { value: m.plus(n).value, ..m }),
        m.minus_one() == (Metric { value: m.minus_one().value, ..m }),
        m.value > 0 ==> m.minus_one().value == m.value - 1,
{
}

/// The metrics endpoint answers only requests that read: the metrics, the health and the page,
/// each under its own path; everything else is not found.
pub proof fn law_metrics_are_read_only(
    method: Seq<char>,
    path: Seq<char>,
    m: ServerMetrics,
    uptime: u64,
)
    ensures
        metrics_answer(method, path, m, uptime).0 == 200 <==> method == "GET"@ && (path
            == "/metrics"@ || path == "/health"@ || path == "/"@),
        metrics_answer(method, path, m, uptime).0 != 200 ==> metrics_answer(
            method,
            path,
            m,
            uptime,
        ).0 == 404,
        metrics_answer("GET"@, "/metrics"@, m, uptime).2 == m.prometheus_text(uptime),
{
}

/// Every metric is exported with its name and its value, and so is how long the server is up.
pub proof fn law_every_metric_is_exported(m: ServerMetrics, uptime: u64)
    ensures
        contains_text(m.prometheus_text(uptime), uptime_text(uptime)),
        contains_text(m.prometheus_text(uptime), m.handshakes_total.text()),
        contains_text(m.prometheus_text(uptime), m.handshakes_success.text()),
        contains_text(m.prometheus_text(uptime), m.handshakes_failed.text()),
        contains_text(m.prometheus_text(uptime), m.sessions_active.text()),
        contains_text(m.prometheus_text(uptime), m.sessions_total.text()),
        contains_text(m.prometheus_text(uptime), m.sessions_timeout.text()),
        contains_text(m.prometheus_text(uptime), m.bytes_received.text()),
        contains_text(m.prometheus_text(uptime), m.bytes_sent.text()),
        contains_text(m.prometheus_text(uptime), m.packets_received.text()),
        contains_text(m.prometheus_text(uptime), m.packets_sent.text()),
        contains_text(m.prometheus_text(uptime), m.packets_dropped.text()),
        contains_text(m.prometheus_text(uptime), m.decryption_errors.text()),
        contains_text(m.prometheus_text(uptime), m.invalid_packets.text()),
        contains_text(m.prometheus_text(uptime), m.replay_rejections.text()),
        contains_text(m.prometheus_text(uptime), m.handshakes_rate_limited.text()),
        contains_text(m.prometheus_text(uptime), m.session_rate_limited.text()),
        contains_text(m.prometheus_text(uptime), m.address_mismatch_drops.text()),
        contains_text(m.prometheus_text(uptime), m.auth_lockout_tuple_total.text()),
        contains_text(m.prometheus_text(uptime), m.auth_lockout_ip_total.text()),
        contains_text(m.prometheus_text(uptime), m.auth_lockout_username_total.text()),
        contains_text(m.prometheus_text(uptime), m.rekeys_total.text()),
        contains_text(m.prometheus_text(uptime), m.control_messages.text()),
        contains_text(m.prometheus_text(uptime), m.keepalives_received.text()),
        contains_text(m.prometheus_text(uptime), m.worker_panics_total.text()),
        contains_text(m.prometheus_text(uptime), m.degraded_mode.text()),
        contains_text(m.prometheus_text(uptime), m.worker_restarts_total.text()),
        contains_text(m.prometheus_text(uptime), m.latency_buckets.text()),
{
    let s0 = uptime_text(uptime);
    law_appending_keeps_what_occurs(s0, m.handshakes_total.text());
    let s1 = s0 + m.handshakes_total.text();
    law_appending_keeps_what_occurs(s1, m.handshakes_success.text());
    let s2 = s1 + m.handshakes_success.text();
    law_appending_keeps_what_occurs(s2, m.handshakes_failed.text());
    let s3 = s2 + m.handshakes_failed.text();
    law_appending_keeps_what_occurs(s3, m.sessions_active.text());
    let s4 = s3 + m.sessions_active.text();
    law_appending_keeps_what_occurs(s4, m.sessions_total.text());
    let s5 = s4 + m.sessions_total.text();
    law_appending_keeps_what_occurs(s5, m.sessions_timeout.text());
    let s6 = s5 + m.sessions_timeout.text();
    law_appending_keeps_what_occurs(s6, m.bytes_received.text());
    let s7 = s6 + m.bytes_received.text();
    law_appending_keeps_what_occurs(s7, m.bytes_sent.text());
    let s8 = s7 + m.bytes_sent.text();
    law_appending_keeps_what_occurs(s8, m.packets_received.text());
    let s9 = s8 + m.packets_received.text();
    law_appending_keeps_what_occurs(s9, m.packets_sent.text());
    let s10 = s9 + m.packets_sent.text();
    law_appending_keeps_what_occurs(s10, m.packets_dropped.text());
    let s11 = s10 + m.packets_dropped.text();
    law_appending_keeps_what_occurs(s11, m.decryption_errors.text());
    let s12 = s11 + m.decryption_errors.text();
    law_appending_keeps_what_occurs(s12, m.invalid_packets.text());
    let s13 = s12 + m.invalid_packets.text();
    law_appending_keeps_what_occurs(s13, m.replay_rejections.text());
    let s14 = s13 + m.replay_rejections.text();
    law_appending_keeps_what_occurs(s14, m.handshakes_rate_limited.text());
    let s15 = s14 + m.handshakes_rate_limited.text();
    law_appending_keeps_what_occurs(s15, m.session_rate_limited.text());
    let s16 = s15 + m.session_rate_limited.text();
    law_appending_keeps_what_occurs(s16, m.address_mismatch_drops.text());
    let s17 = s16 + m.address_mismatch_drops.text();
    law_appending_keeps_what_occurs(s17, m.auth_lockout_tuple_total.text());
    let s18 = s17 + m.auth_lockout_tuple_total.text();
    law_appending_keeps_what_occurs(s18, m.auth_lockout_ip_total.text());
    let s19 = s18 + m.auth_lockout_ip_total.text();
    law_appending_keeps_what_occurs(s19, m.auth_lockout_username_total.text());
    let s20 = s19 + m.auth_lockout_username_total.text();
    law_appending_keeps_what_occurs(s20, m.rekeys_total.text());
    let s21 = s20 + m.rekeys_total.text();
    law_appending_keeps_what_occurs(s21, m.control_messages.text());
    let s22 = s21 + m.control_messages.text();
    law_appending_keeps_what_occurs(s22, m.keepalives_received.text());
    let s23 = s22 + m.keepalives_received.text();
    law_appending_keeps_what_occurs(s23, m.worker_panics_total.text());
    let s24 = s23 + m.worker_panics_total.text();
    law_appending_keeps_what_occurs(s24, m.degraded_mode.text());
    let s25 = s24 + m.degraded_mode.text();
    law_appending_keeps_what_occurs(s25, m.worker_restarts_total.text());
    let s26 = s25 + m.worker_restarts_total.text();
    law_appending_keeps_what_occurs(s26, m.latency_buckets.text());
    let s27 = s26 + m.latency_buckets.text();
    assert(m.prometheus_text(uptime) == s27);
}

/// The summary shows each counter under its own name.
pub proof fn law_the_summary_shows_the_counters(m: ServerMetrics, uptime: u64)
    ensures
        ({
            let s = m.summary_of(uptime);
            &&& s.uptime_secs == uptime
            &&& s.sessions_active == m.sessions_active.value
            &&& s.sessions_total == m.sessions_total.value
            &&& s.bytes_sent == m.bytes_sent.value
            &&& s.bytes_received == m.bytes_received.value
            &&& s.packets_sent == m.packets_sent.value
            &&& s.packets_received == m.packets_received.value
            &&& s.packets_dropped == m.packets_dropped.value
            &&& s.decryption_errors == m.decryption_errors.value
            &&& s.handshakes_success == m.handshakes_success.value
            &&& s.handshakes_failed == m.handshakes_failed.value
        }),
{
}

/// A recorded value is added to the sum and counted in every line of the export whose bound it does
/// not exceed, and in no other.
pub proof fn law_values_are_counted_up_to_their_bound(
    h: LatencyHistogram,
    g: LatencyHistogram,
    value_ms: u64,
    i: int,
)
    requires
        h.wf(),
        h.gained(g, value_ms),
        0 <= i < 9,
        h.sum + value_ms <= u64::MAX,
        forall|k: int| 0 <= k < h.counts@.len() ==> #[trigger] h.counts@[k] < u64::MAX,
        h.overflow < u64::MAX,
        h.count < u64::MAX,
    ensures
        g.sum == h.sum + value_ms,
        g.count == h.count + 1,
        g.total() == h.total() + 1,
        count_sum(g.counts@, i + 1) == count_sum(h.counts@, i + 1) + (if value_ms
            <= latency_bounds()[i] {
            1int
        } else {
            0int
        }),
{
    let b = bucket_from(latency_bounds(), value_ms, 0);
    law_values_fall_into_their_bucket(value_ms);
    if b < 9 {
        assert(h.counts@[b] < u64::MAX);
        lemma_count_sum_update(h.counts@, b, bumped(h.counts@[b], 1), i + 1);
        lemma_count_sum_update(h.counts@, b, bumped(h.counts@[b], 1), 9);
    }
}

/// Handshakes add up: every attempt is a success or a failure, and the total is their sum.
pub proof fn law_handshakes_add_up(m: ServerMetrics, success: bool)
    requires
        m.handshakes_total.value == m.handshakes_success.value + m.handshakes_failed.value,
        m.handshakes_total.value < u64::MAX,
    ensures
        ({
            let r = m.handshake_recorded(success);
            &&& r.handshakes_total.value == m.handshakes_total.value + 1
            &&& r.handshakes_total.value == r.handshakes_success.value + r.handshakes_failed.value
            &&& success ==> r.handshakes_success.value == m.handshakes_success.value + 1
            &&& !success ==> r.handshakes_failed.value == m.handshakes_failed.value + 1
            &&& r.sessions_active == m.sessions_active
            &&& r.packets_dropped == m.packets_dropped
        }),
{
}

/// A session that ends leaves as many active ones as before it was created; it stays in the total,
/// and counts as timed out only if it was.
pub proof fn law_sessions_balance(m: ServerMetrics, timeout: bool)
    requires
        m.sessions_active.value < u64::MAX,
        m.sessions_total.value < u64::MAX,
        m.sessions_timeout.value < u64::MAX,
    ensures
        ({
            let a = m.session_created_recorded();
            let b = a.session_ended_recorded(timeout);
            &&& a.sessions_active.value == m.sessions_active.value + 1
            &&& a.sessions_total.value == m.sessions_total.value + 1
            &&& b.sessions_active.value == m.sessions_active.value
            &&& b.sessions_total.value == m.sessions_total.value + 1
            &&& b.sessions_timeout.value == m.sessions_timeout.value + (if timeout {
                1int
            } else {
                0int
            })
        }),
{
}

/// Traffic counts in the direction that it went.
pub proof fn law_traffic_counts_in_its_direction(m: ServerMetrics, sent: u64, received: u64)
    requires
        m.bytes_sent.value + sent <= u64::MAX,
        m.bytes_received.value + received <= u64::MAX,
        m.packets_sent.value + sent <= u64::MAX,
        m.packets_received.value + received <= u64::MAX,
    ensures
        ({
            let b = m.bytes_recorded(sent, received);
            let p = m.packets_recorded(sent, received);
            &&& b.bytes_sent.value == m.bytes_sent.value + sent
            &&& b.bytes_received.value == m.bytes_received.value + received
            &&& b.packets_sent == m.packets_sent && b.packets_received == m.packets_received
            &&& p.packets_sent.value == m.packets_sent.value + sent
            &&& p.packets_received.value == m.packets_received.value + received
            &&& p.bytes_sent == m.bytes_sent && p.bytes_received == m.bytes_received
        }),
{
}

/// Whatever goes wrong with a packet or a handshake is counted once, under its own name and no
/// other; a packet dropped for its address counts as a dropped packet as well.
pub proof fn law_errors_count_under_their_names(m: ServerMetrics)
    requires
        m.packets_dropped.value < u64::MAX,
        m.decryption_errors.value < u64::MAX,
        m.invalid_packets.value < u64::MAX,
        m.replay_rejections.value < u64::MAX,
        m.handshakes_rate_limited.value < u64::MAX,
        m.session_rate_limited.value < u64::MAX,
        m.address_mismatch_drops.value < u64::MAX,
    ensures
        m.packet_drop_recorded().packets_dropped.value == m.packets_dropped.value + 1,
        m.decryption_error_recorded().decryption_errors.value == m.decryption_errors.value + 1,
        m.invalid_packet_recorded().invalid_packets.value == m.invalid_packets.value + 1,
        m.replay_rejection_recorded().replay_rejections.value == m.replay_rejections.value + 1,
        m.rate_limited_recorded().handshakes_rate_limited.value == m.handshakes_rate_limited.value
            + 1,
        m.session_rate_limited_recorded().session_rate_limited.value == m.session_rate_limited.value
            + 1,
        m.address_mismatch_drop_recorded().address_mismatch_drops.value
            == m.address_mismatch_drops.value + 1,
        m.address_mismatch_drop_recorded().packets_dropped.value == m.packets_dropped.value + 1,
        m.decryption_error_recorded().packets_dropped == m.packets_dropped,
        m.invalid_packet_recorded().packets_dropped == m.packets_dropped,
        m.replay_rejection_recorded().packets_dropped == m.packets_dropped,
        m.packet_drop_recorded() == (ServerMetrics {
            packets_dropped: m.packet_drop_recorded().packets_dropped,
            ..m
        }),
        m.decryption_error_recorded() == (ServerMetrics {
            decryption_errors: m.decryption_error_recorded().decryption_errors,
            ..m
        }),
        m.replay_rejection_recorded() == (ServerMetrics {
            replay_rejections: m.replay_rejection_recorded().replay_rejections,
            ..m
        }),
{
}

/// What workers and sessions do is counted once each, under its own name.
pub proof fn law_events_count_under_their_names(m: ServerMetrics)
    requires
        m.rekeys_total.value < u64::MAX,
        m.control_messages.value < u64::MAX,
        m.keepalives_received.value < u64::MAX,
        m.worker_panics_total.value < u64::MAX,
        m.worker_restarts_total.value < u64::MAX,
    ensures
        m.rekey_recorded().rekeys_total.value == m.rekeys_total.value + 1,
        m.control_message_recorded().control_messages.value == m.control_messages.value + 1,
        m.keepalive_recorded().keepalives_received.value == m.keepalives_received.value + 1,
        m.worker_panic_recorded().worker_panics_total.value == m.worker_panics_total.value + 1,
        m.worker_restart_recorded().worker_restarts_total.value == m.worker_restarts_total.value
            + 1,
        m.degraded_mode_set(true).degraded_mode.value == 1,
        m.degraded_mode_set(false).degraded_mode.value == 0,
{
}

/// A lockout counts once, under its kind.
pub proof fn law_lockouts_count_under_their_kind(m: ServerMetrics, kind: LockoutKind)
    requires
        m.auth_lockout_tuple_total.value < u64::MAX,
        m.auth_lockout_ip_total.value < u64::MAX,
        m.auth_lockout_username_total.value < u64::MAX,
    ensures
        ({
            let r = m.auth_lockout_recorded(kind);
            &&& r.auth_lockout_tuple_total.value == m.auth_lockout_tuple_total.value + (if kind
                is Tuple {
                1int
            } else {
                0int
            })
            &&& r.auth_lockout_ip_total.value == m.auth_lockout_ip_total.value + (if kind is Ip {
                1int
            } else {
                0int
            })
            &&& r.auth_lockout_username_total.value == m.auth_lockout_username_total.value + (if kind
                is UsernameSpread {
                1int
            } else {
                0int
            })
        }),
{
}

} // verus!
