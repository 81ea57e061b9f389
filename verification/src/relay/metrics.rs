//! Metrics for the relay server.

use crate::text::{contains_text, decimal, law_appending_keeps_what_occurs, push_decimal};
use crate::time::Clock;
use vstd::prelude::*;

verus! {

/// Relay metrics collection. Counters wrap around.
#[derive(Clone, Copy)]
pub struct RelayMetrics {
    /// Total packets forwarded (client to upstream).
    pub packets_forwarded: u64,
    /// Total packets returned (upstream to client).
    pub packets_returned: u64,
    /// Total bytes forwarded (client to upstream).
    pub bytes_forwarded: u64,
    /// Total bytes returned (upstream to client).
    pub bytes_returned: u64,
    /// Packets dropped (rate limit, invalid, etc.).
    pub packets_dropped: u64,
    /// Active sessions.
    pub sessions_active: u64,
    /// Total sessions created.
    pub sessions_total: u64,
    /// Upstream health status.
    pub upstream_healthy: bool,
    /// Total upstream health check probes sent.
    pub upstream_probes_total: u64,
    /// Failed upstream health check probes.
    pub upstream_probes_failed: u64,
    /// Counts from the start of the relay.
    pub clock: Clock,
}

/// A counter one or more higher, as a machine word holds it.
pub open spec fn bumped(n: u64, by: nat) -> u64 {
    ((n + by) % 0x1_0000_0000_0000_0000) as u64
}

/// One metric in the Prometheus text format.
pub open spec fn family(name: Seq<char>, help: Seq<char>, kind: Seq<char>, value: nat) -> Seq<char> {
    "# HELP "@ + name + " "@ + help + "\n# TYPE "@ + name + " "@ + kind + "\n"@ + name + " "@
        + decimal(value) + "\n"@
}

/// One for healthy, zero for unhealthy.
pub open spec fn health_number(healthy: bool) -> nat {
    if healthy {
        1
    } else {
        0
    }
}

/// Appends one metric.
fn push_family(out: &mut String, name: &str, help: &str, kind: &str, value: u64)
    ensures
        final(out)@ == old(out)@ + family(name@, help@, kind@, value as nat),
{
    out.append("# HELP ");
    out.append(name);
    out.append(" ");
    out.append(help);
    out.append("\n# TYPE ");
    out.append(name);
    out.append(" ");
    out.append(kind);
    out.append("\n");
    out.append(name);
    out.append(" ");
    push_decimal(out, value);
    out.append("\n");
    proof {
        assert(out@ =~= old(out)@ + family(name@, help@, kind@, value as nat));
    }
}

impl RelayMetrics {
    /// Nothing counted yet, upstream taken for healthy.
    pub open spec fn zero(clock: Clock) -> RelayMetrics {
        RelayMetrics {
            packets_forwarded: 0,
            packets_returned: 0,
            bytes_forwarded: 0,
            bytes_returned: 0,
            packets_dropped: 0,
            sessions_active: 0,
            sessions_total: 0,
            upstream_healthy: true,
            upstream_probes_total: 0,
            upstream_probes_failed: 0,
            clock,
        }
    }

    /// After a packet of `bytes` went to upstream.
    pub open spec fn forwarded(self, bytes: usize) -> RelayMetrics {
        RelayMetrics {
            packets_forwarded: bumped(self.packets_forwarded, 1),
            bytes_forwarded: bumped(self.bytes_forwarded, bytes as nat),
            ..self
        }
    }

    /// After a packet of `bytes` went back to a client.
    pub open spec fn returned(self, bytes: usize) -> RelayMetrics {
        RelayMetrics {
            packets_returned: bumped(self.packets_returned, 1),
            bytes_returned: bumped(self.bytes_returned, bytes as nat),
            ..self
        }
    }

    /// After a packet was dropped.
    pub open spec fn dropped(self) -> RelayMetrics {
        RelayMetrics { packets_dropped: bumped(self.packets_dropped, 1), ..self }
    }

    /// After a session was created.
    pub open spec fn session_created(self) -> RelayMetrics {
        RelayMetrics {
            sessions_total: bumped(self.sessions_total, 1),
            sessions_active: bumped(self.sessions_active, 1),
            ..self
        }
    }

    /// After `n` sessions were removed; the number of active ones stops at zero.
    pub open spec fn sessions_removed(self, n: nat) -> RelayMetrics {
        RelayMetrics {
            sessions_active: if self.sessions_active >= n {
                (self.sessions_active - n) as u64
            } else {
                0
            },
            ..self
        }
    }

    /// After a health probe.
    pub open spec fn probed(self, success: bool) -> RelayMetrics {
        RelayMetrics {
            upstream_probes_total: bumped(self.upstream_probes_total, 1),
            upstream_probes_failed: if success {
                self.upstream_probes_failed
            } else {
                bumped(self.upstream_probes_failed, 1)
            },
            ..self
        }
    }

    /// After a health probe whose outcome tells the health.
    pub open spec fn observed(self, success: bool) -> RelayMetrics {
        RelayMetrics { upstream_healthy: success, ..self.probed(success) }
    }

    /// The summary line after `uptime` seconds.
    pub open spec fn summary_text(self, uptime: u64) -> Seq<char> {
        "uptime="@ + decimal(uptime as nat) + "s sessions="@ + decimal(self.sessions_active as nat)
            + " fwd="@ + decimal(self.packets_forwarded as nat) + "/"@ + decimal(
            self.bytes_forwarded as nat,
        ) + " ret="@ + decimal(self.packets_returned as nat) + "/"@ + decimal(
            self.bytes_returned as nat,
        ) + " drop="@ + decimal(self.packets_dropped as nat) + " upstream="@ + (
        if self.upstream_healthy {
            "healthy"@
        } else {
            "UNHEALTHY"@
        })
    }

    /// All metrics after `uptime` seconds in the Prometheus text format.
    pub open spec fn prometheus_text(self, uptime: u64) -> Seq<char> {
        family("hpn_relay_uptime_seconds"@, "Relay uptime in seconds"@, "counter"@, uptime as nat)
            + "\n"@ + family("hpn_relay_sessions_active"@, "Currently active relay sessions"@, "gauge"@, self.sessions_active as nat)
            + "\n"@ + family("hpn_relay_sessions_total"@, "Total relay sessions created"@, "counter"@, self.sessions_total as nat)
            + "\n"@ + family("hpn_relay_packets_forwarded_total"@, "Packets forwarded to upstream"@, "counter"@, self.packets_forwarded as nat)
            + "\n"@ + family("hpn_relay_packets_returned_total"@, "Packets returned to clients"@, "counter"@, self.packets_returned as nat)
            + "\n"@ + family("hpn_relay_bytes_forwarded_total"@, "Bytes forwarded to upstream"@, "counter"@, self.bytes_forwarded as nat)
            + "\n"@ + family("hpn_relay_bytes_returned_total"@, "Bytes returned to clients"@, "counter"@, self.bytes_returned as nat)
            + "\n"@ + family("hpn_relay_packets_dropped_total"@, "Packets dropped (rate limit, invalid)"@, "counter"@, self.packets_dropped as nat)
            + "\n"@ + family("hpn_relay_upstream_healthy"@, "Upstream server health status (1=healthy, 0=unhealthy)"@, "gauge"@, health_number(self.upstream_healthy))
            + "\n"@ + family("hpn_relay_upstream_probes_total"@, "Total upstream health probes sent"@, "counter"@, self.upstream_probes_total as nat)
            + "\n"@ + family("hpn_relay_upstream_probes_failed_total"@, "Failed upstream health probes"@, "counter"@, self.upstream_probes_failed as nat)
    }

    /// Create new metrics.
    pub fn new() -> (m: RelayMetrics)
        ensures
            m == RelayMetrics::zero(m.clock),
            m.clock.started(),
    {
        RelayMetrics {
            packets_forwarded: 0,
            packets_returned: 0,
            bytes_forwarded: 0,
            bytes_returned: 0,
            packets_dropped: 0,
            sessions_active: 0,
            sessions_total: 0,
            upstream_healthy: true,
            upstream_probes_total: 0,
            upstream_probes_failed: 0,
            clock: Clock::start(),
        }
    }

    /// Record packet forwarded (client to upstream).
    pub fn record_forward(&mut self, bytes: usize)
        ensures
            *final(self) == old(self).forwarded(bytes),
    {
        self.packets_forwarded = self.packets_forwarded.wrapping_add(1);
        self.bytes_forwarded = self.bytes_forwarded.wrapping_add(bytes as u64);
    }

    /// Record packet returned (upstream to client).
    pub fn record_return(&mut self, bytes: usize)
        ensures
            *final(self) == old(self).returned(bytes),
    {
        self.packets_returned = self.packets_returned.wrapping_add(1);
        self.bytes_returned = self.bytes_returned.wrapping_add(bytes as u64);
    }

    /// Record packet drop.
    pub fn record_drop(&mut self)
        ensures
            *final(self) == old(self).dropped(),
    {
        self.packets_dropped = self.packets_dropped.wrapping_add(1);
    }

    /// Record new session.
    pub fn record_session_created(&mut self)
        ensures
            *final(self) == old(self).session_created(),
    {
        self.sessions_total = self.sessions_total.wrapping_add(1);
        self.sessions_active = self.sessions_active.wrapping_add(1);
    }

    /// Record session removed (never below zero).
    pub fn record_session_removed(&mut self)
        ensures
            *final(self) == old(self).sessions_removed(1),
    {
        self.sessions_active = self.sessions_active.saturating_sub(1);
    }

    /// Update active sessions count.
    pub fn set_sessions_active(&mut self, count: usize)
        ensures
            *final(self) == (RelayMetrics { sessions_active: count as u64, ..*old(self) }),
    {
        self.sessions_active = count as u64;
    }

    /// Get uptime in seconds.
    pub fn uptime_secs(&self) -> (secs: u64)
        ensures
            self.clock.reads_secs(secs),
    {
        self.clock.now_ms() / 1000
    }

    /// Record upstream health status.
    pub fn set_upstream_healthy(&mut self, healthy: bool)
        ensures
            *final(self) == (RelayMetrics { upstream_healthy: healthy, ..*old(self) }),
    {
        self.upstream_healthy = healthy;
    }

    /// Record upstream health probe.
    pub fn record_upstream_probe(&mut self, success: bool)
        ensures
            *final(self) == old(self).probed(success),
    {
        self.upstream_probes_total = self.upstream_probes_total.wrapping_add(1);
        if !success {
            self.upstream_probes_failed = self.upstream_probes_failed.wrapping_add(1);
        }
    }

    /// Check if upstream is healthy.
    pub fn is_upstream_healthy(&self) -> (b: bool)
        ensures
            b == self.upstream_healthy,
    {
        self.upstream_healthy
    }

    /// Takes in the outcome of a health probe. Returns whether upstream changed between healthy
    /// and unhealthy, which is worth a log line.
    pub fn observe_probe(&mut self, success: bool) -> (changed: bool)
        ensures
            *final(self) == old(self).observed(success),
            changed == (success != old(self).upstream_healthy),
    {
        let before = self.is_upstream_healthy();
        self.set_upstream_healthy(success);
        self.record_upstream_probe(success);
        before != success
    }

    /// Takes `removed` sessions off the active ones.
    pub fn record_sessions_removed(&mut self, removed: usize)
        ensures
            *final(self) == old(self).sessions_removed(removed as nat),
    {
        let mut i: usize = 0;
        while i < removed
            invariant
                i <= removed,
                *self == old(self).sessions_removed(i as nat),
            decreases removed - i,
        {
            self.record_session_removed();
            i += 1;
        }
    }

    /// Get summary for logging after `uptime` seconds.
    pub fn summary_at(&self, uptime: u64) -> (s: String)
        ensures
            s@ == self.summary_text(uptime),
    {
        let mut s = String::from_str("uptime=");
        push_decimal(&mut s, uptime);
        s.append("s sessions=");
        push_decimal(&mut s, self.sessions_active);
        s.append(" fwd=");
        push_decimal(&mut s, self.packets_forwarded);
        s.append("/");
        push_decimal(&mut s, self.bytes_forwarded);
        s.append(" ret=");
        push_decimal(&mut s, self.packets_returned);
        s.append("/");
        push_decimal(&mut s, self.bytes_returned);
        s.append(" drop=");
        push_decimal(&mut s, self.packets_dropped);
        s.append(" upstream=");
        if self.is_upstream_healthy() {
            s.append("healthy");
        } else {
            s.append("UNHEALTHY");
        }
        s
    }

    /// Get summary for logging.
    pub fn summary(&self) -> (s: String)
        ensures
            exists|uptime: u64|
                self.clock.reads_secs(uptime) && s@ == #[trigger] self.summary_text(uptime),
    {
        let uptime: u64 = self.uptime_secs();
        self.summary_at(uptime)
    }

    /// Export Prometheus metrics after `uptime` seconds.
    pub fn export_prometheus_at(&self, uptime: u64) -> (s: String)
        ensures
            s@ == self.prometheus_text(uptime),
    {
        let healthy: u64 = if self.is_upstream_healthy() {
            1
        } else {
            0
        };
        let mut s = String::new();
        push_family(&mut s, "hpn_relay_uptime_seconds", "Relay uptime in seconds", "counter", uptime);
        proof {
            assert(Seq::<char>::empty() + family("hpn_relay_uptime_seconds"@, "Relay uptime in seconds"@, "counter"@, uptime as nat) =~= family("hpn_relay_uptime_seconds"@, "Relay uptime in seconds"@, "counter"@, uptime as nat));
        }
        s.append("\n");
        push_family(&mut s, "hpn_relay_sessions_active", "Currently active relay sessions", "gauge", self.sessions_active);
        s.append("\n");
        push_family(&mut s, "hpn_relay_sessions_total", "Total relay sessions created", "counter", self.sessions_total);
        s.append("\n");
        push_family(&mut s, "hpn_relay_packets_forwarded_total", "Packets forwarded to upstream", "counter", self.packets_forwarded);
        s.append("\n");
        push_family(&mut s, "hpn_relay_packets_returned_total", "Packets returned to clients", "counter", self.packets_returned);
        s.append("\n");
        push_family(&mut s, "hpn_relay_bytes_forwarded_total", "Bytes forwarded to upstream", "counter", self.bytes_forwarded);
        s.append("\n");
        push_family(&mut s, "hpn_relay_bytes_returned_total", "Bytes returned to clients", "counter", self.bytes_returned);
        s.append("\n");
        push_family(&mut s, "hpn_relay_packets_dropped_total", "Packets dropped (rate limit, invalid)", "counter", self.packets_dropped);
        s.append("\n");
        push_family(&mut s, "hpn_relay_upstream_healthy", "Upstream server health status (1=healthy, 0=unhealthy)", "gauge", healthy);
        s.append("\n");
        push_family(&mut s, "hpn_relay_upstream_probes_total", "Total upstream health probes sent", "counter", self.upstream_probes_total);
        s.append("\n");
        push_family(&mut s, "hpn_relay_upstream_probes_failed_total", "Failed upstream health probes", "counter", self.upstream_probes_failed);
        s
    }

    /// Export Prometheus metrics.
    pub fn export_prometheus(&self) -> (s: String)
        ensures
            exists|uptime: u64|
                self.clock.reads_secs(uptime) && s@ == #[trigger] self.prometheus_text(uptime),
    {
        let uptime: u64 = self.uptime_secs();
        self.export_prometheus_at(uptime)
    }
}

impl Default for RelayMetrics {
    fn default() -> (m: RelayMetrics)
        ensures
            m == RelayMetrics::zero(m.clock),
            m.clock.started(),
    {
        RelayMetrics::new()
    }
}

/// Removing every session that was created leaves as many active ones as before.
pub proof fn law_created_and_removed_balance(m: RelayMetrics)
    requires
        m.sessions_active < u64::MAX,
    ensures
        m.session_created().sessions_removed(1).sessions_active == m.sessions_active,
{
}

/// Each record changes the counters that it is about, by exactly what it says, and no others.
pub proof fn law_counters_are_apart(m: RelayMetrics, bytes: usize, success: bool)
    requires
        m.packets_forwarded < u64::MAX,
        m.packets_returned < u64::MAX,
        m.packets_dropped < u64::MAX,
        m.sessions_active < u64::MAX,
        m.sessions_total < u64::MAX,
        m.upstream_probes_total < u64::MAX,
        m.upstream_probes_failed < u64::MAX,
        m.bytes_forwarded + bytes <= u64::MAX,
        m.bytes_returned + bytes <= u64::MAX,
    ensures
        m.forwarded(bytes) == (RelayMetrics {
            packets_forwarded: (m.packets_forwarded + 1) as u64,
            bytes_forwarded: (m.bytes_forwarded + bytes) as u64,
            ..m
        }),
        m.returned(bytes) == (RelayMetrics {
            packets_returned: (m.packets_returned + 1) as u64,
            bytes_returned: (m.bytes_returned + bytes) as u64,
            ..m
        }),
        m.dropped() == (RelayMetrics { packets_dropped: (m.packets_dropped + 1) as u64, ..m }),
        m.session_created() == (RelayMetrics {
            sessions_active: (m.sessions_active + 1) as u64,
            sessions_total: (m.sessions_total + 1) as u64,
            ..m
        }),
        m.probed(success).upstream_probes_total == m.upstream_probes_total + 1,
        m.probed(true).upstream_probes_failed == m.upstream_probes_failed,
        m.probed(false).upstream_probes_failed == m.upstream_probes_failed + 1,
        m.probed(success) == (RelayMetrics {
            upstream_probes_total: m.probed(success).upstream_probes_total,
            upstream_probes_failed: m.probed(success).upstream_probes_failed,
            ..m
        }),
{
}

/// Removals lower the number of active sessions, never below zero, and leave the total alone;
/// removing some and then others is removing all of them.
pub proof fn law_removals_add_up(m: RelayMetrics, a: nat, b: nat)
    ensures
        a <= m.sessions_active ==> m.sessions_removed(a).sessions_active == m.sessions_active - a,
        a > m.sessions_active ==> m.sessions_removed(a).sessions_active == 0,
        m.sessions_removed(a).sessions_total == m.sessions_total,
        m.sessions_removed(a).sessions_removed(b) == m.sessions_removed(a + b),
{
}

/// Every number is exported under its own name, and health as one or zero.
pub proof fn law_every_counter_is_exported(m: RelayMetrics, uptime: u64)
    ensures
        contains_text(
            m.prometheus_text(uptime),
            family("hpn_relay_uptime_seconds"@, "Relay uptime in seconds"@, "counter"@, uptime as nat),
        ),
        contains_text(
            m.prometheus_text(uptime),
            family("hpn_relay_sessions_active"@, "Currently active relay sessions"@, "gauge"@, m.sessions_active as nat),
        ),
        contains_text(
            m.prometheus_text(uptime),
            family("hpn_relay_sessions_total"@, "Total relay sessions created"@, "counter"@, m.sessions_total as nat),
        ),
        contains_text(
            m.prometheus_text(uptime),
            family("hpn_relay_packets_forwarded_total"@, "Packets forwarded to upstream"@, "counter"@, m.packets_forwarded as nat),
        ),
        contains_text(
            m.prometheus_text(uptime),
            family("hpn_relay_packets_returned_total"@, "Packets returned to clients"@, "counter"@, m.packets_returned as nat),
        ),
        contains_text(
            m.prometheus_text(uptime),
            family("hpn_relay_bytes_forwarded_total"@, "Bytes forwarded to upstream"@, "counter"@, m.bytes_forwarded as nat),
        ),
        contains_text(
            m.prometheus_text(uptime),
            family("hpn_relay_bytes_returned_total"@, "Bytes returned to clients"@, "counter"@, m.bytes_returned as nat),
        ),
        contains_text(
            m.prometheus_text(uptime),
            family("hpn_relay_packets_dropped_total"@, "Packets dropped (rate limit, invalid)"@, "counter"@, m.packets_dropped as nat),
        ),
        contains_text(
            m.prometheus_text(uptime),
            family("hpn_relay_upstream_healthy"@, "Upstream server health status (1=healthy, 0=unhealthy)"@, "gauge"@, health_number(m.upstream_healthy)),
        ),
        contains_text(
            m.prometheus_text(uptime),
            family("hpn_relay_upstream_probes_total"@, "Total upstream health probes sent"@, "counter"@, m.upstream_probes_total as nat),
        ),
        contains_text(
            m.prometheus_text(uptime),
            family("hpn_relay_upstream_probes_failed_total"@, "Failed upstream health probes"@, "counter"@, m.upstream_probes_failed as nat),
        ),
        health_number(true) == 1,
        health_number(false) == 0,
{
    let f0 = family("hpn_relay_uptime_seconds"@, "Relay uptime in seconds"@, "counter"@, uptime as nat);
    let f1 = family("hpn_relay_sessions_active"@, "Currently active relay sessions"@, "gauge"@, m.sessions_active as nat);
    let f2 = family("hpn_relay_sessions_total"@, "Total relay sessions created"@, "counter"@, m.sessions_total as nat);
    let f3 = family("hpn_relay_packets_forwarded_total"@, "Packets forwarded to upstream"@, "counter"@, m.packets_forwarded as nat);
    let f4 = family("hpn_relay_packets_returned_total"@, "Packets returned to clients"@, "counter"@, m.packets_returned as nat);
    let f5 = family("hpn_relay_bytes_forwarded_total"@, "Bytes forwarded to upstream"@, "counter"@, m.bytes_forwarded as nat);
    let f6 = family("hpn_relay_bytes_returned_total"@, "Bytes returned to clients"@, "counter"@, m.bytes_returned as nat);
    let f7 = family("hpn_relay_packets_dropped_total"@, "Packets dropped (rate limit, invalid)"@, "counter"@, m.packets_dropped as nat);
    let f8 = family("hpn_relay_upstream_healthy"@, "Upstream server health status (1=healthy, 0=unhealthy)"@, "gauge"@, health_number(m.upstream_healthy));
    let f9 = family("hpn_relay_upstream_probes_total"@, "Total upstream health probes sent"@, "counter"@, m.upstream_probes_total as nat);
    let f10 = family("hpn_relay_upstream_probes_failed_total"@, "Failed upstream health probes"@, "counter"@, m.upstream_probes_failed as nat);
    let s0 = f0;
    law_appending_keeps_what_occurs(s0, "\n"@);
    let t1 = s0 + "\n"@;
    law_appending_keeps_what_occurs(t1, f1);
    let s1 = t1 + f1;
    law_appending_keeps_what_occurs(s1, "\n"@);
    let t2 = s1 + "\n"@;
    law_appending_keeps_what_occurs(t2, f2);
    let s2 = t2 + f2;
    law_appending_keeps_what_occurs(s2, "\n"@);
    let t3 = s2 + "\n"@;
    law_appending_keeps_what_occurs(t3, f3);
    let s3 = t3 + f3;
    law_appending_keeps_what_occurs(s3, "\n"@);
    let t4 = s3 + "\n"@;
    law_appending_keeps_what_occurs(t4, f4);
    let s4 = t4 + f4;
    law_appending_keeps_what_occurs(s4, "\n"@);
    let t5 = s4 + "\n"@;
    law_appending_keeps_what_occurs(t5, f5);
    let s5 = t5 + f5;
    law_appending_keeps_what_occurs(s5, "\n"@);
    let t6 = s5 + "\n"@;
    law_appending_keeps_what_occurs(t6, f6);
    let s6 = t6 + f6;
    law_appending_keeps_what_occurs(s6, "\n"@);
    let t7 = s6 + "\n"@;
    law_appending_keeps_what_occurs(t7, f7);
    let s7 = t7 + f7;
    law_appending_keeps_what_occurs(s7, "\n"@);
    let t8 = s7 + "\n"@;
    law_appending_keeps_what_occurs(t8, f8);
    let s8 = t8 + f8;
    law_appending_keeps_what_occurs(s8, "\n"@);
    let t9 = s8 + "\n"@;
    law_appending_keeps_what_occurs(t9, f9);
    let s9 = t9 + f9;
    law_appending_keeps_what_occurs(s9, "\n"@);
    let t10 = s9 + "\n"@;
    law_appending_keeps_what_occurs(t10, f10);
    let s10 = t10 + f10;
    assert(m.prometheus_text(uptime) == s10);
}

/// The upstream is taken for healthy exactly when its last probe went out, and every probe counts,
/// among the failed ones if it did not.
pub proof fn law_health_follows_the_last_probe(m: RelayMetrics, success: bool)
    requires
        m.upstream_probes_total < u64::MAX,
        m.upstream_probes_failed < u64::MAX,
    ensures
        m.observed(success).upstream_healthy == success,
        m.observed(success).upstream_probes_total == m.upstream_probes_total + 1,
        m.observed(success).upstream_probes_failed == m.upstream_probes_failed + (if success {
            0int
        } else {
            1int
        }),
        m.observed(success).packets_dropped == m.packets_dropped,
        m.observed(success).sessions_active == m.sessions_active,
{
}

} // verus!
