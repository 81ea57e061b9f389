//! One relay session.

use crate::net::SocketAddr;
use crate::relay::rate_limiter::{RateLimiter, monus};
use crate::time::{Clock, Duration, ms_of, us_of};
use vstd::prelude::*;

verus! {

/// Session identifier of the wire header. Zero is reserved for packets outside a session.
#[derive(Clone, Copy, Debug, PartialEq, Eq, Hash, Structural)]
pub struct SessionId(pub u64);

/// A relay session tracking client-to-upstream mapping.
#[derive(Clone, Copy, Debug)]
pub struct RelaySession {
    /// Session ID (from the wire header).
    pub session_id: SessionId,
    /// Client's address.
    pub client_addr: SocketAddr,
    /// Last activity, in milliseconds of `clock`.
    pub last_activity_ms: u64,
    /// Creation time, in nanoseconds of `clock`.
    pub created_at_ns: u128,
    /// Bytes forwarded client -> upstream.
    pub bytes_sent: u64,
    /// Bytes forwarded upstream -> client.
    pub bytes_received: u64,
    /// Packets forwarded client -> upstream.
    pub packets_sent: u64,
    /// Packets forwarded upstream -> client.
    pub packets_received: u64,
    /// Rate limiter for client -> upstream direction.
    pub client_rate_limiter: RateLimiter,
    /// Rate limiter for upstream -> client direction.
    pub upstream_rate_limiter: RateLimiter,
    /// The clock of all times above.
    pub clock: Clock,
}

/// Session statistics snapshot.
#[derive(Clone, Copy, Debug, PartialEq, Eq, Structural)]
pub struct SessionStats {
    pub session_id: SessionId,
    pub client_addr: SocketAddr,
    pub bytes_sent: u64,
    pub bytes_received: u64,
    pub packets_sent: u64,
    pub packets_received: u64,
    pub age: Duration,
}

/// A limiter with full buckets.
pub open spec fn full_limiter(max_pps: u32, max_bps: u64, clock: Clock, now_us: u64) -> RateLimiter {
    RateLimiter {
        max_pps,
        max_bps,
        packet_tokens: max_pps as u64,
        byte_tokens: max_bps,
        last_refill: now_us,
        clock,
    }
}

impl RelaySession {
    /// A session that starts at `now_ns`, with nothing counted and full buckets.
    pub open spec fn fresh(
        session_id: SessionId,
        client_addr: SocketAddr,
        max_pps: u32,
        max_bps: u64,
        clock: Clock,
        now_ns: u128,
    ) -> RelaySession {
        RelaySession {
            session_id,
            client_addr,
            last_activity_ms: ms_of(now_ns),
            created_at_ns: now_ns,
            bytes_sent: 0,
            bytes_received: 0,
            packets_sent: 0,
            packets_received: 0,
            client_rate_limiter: full_limiter(max_pps, max_bps, clock, us_of(now_ns)),
            upstream_rate_limiter: full_limiter(max_pps, max_bps, clock, us_of(now_ns)),
            clock,
        }
    }

    /// Whether more than `timeout_ms` passed since the last activity.
    pub open spec fn expired(self, timeout_ms: u64, now_ms: u64) -> bool {
        monus(now_ms as nat, self.last_activity_ms as nat) > timeout_ms
    }

    /// The session after `bytes` went to upstream; counters wrap around.
    pub open spec fn sent(self, bytes: usize) -> RelaySession {
        RelaySession {
            bytes_sent: ((self.bytes_sent + bytes) % 0x1_0000_0000_0000_0000) as u64,
            packets_sent: ((self.packets_sent + 1) % 0x1_0000_0000_0000_0000) as u64,
            ..self
        }
    }

    /// The session after `bytes` came from upstream; counters wrap around.
    pub open spec fn received(self, bytes: usize) -> RelaySession {
        RelaySession {
            bytes_received: ((self.bytes_received + bytes) % 0x1_0000_0000_0000_0000) as u64,
            packets_received: ((self.packets_received + 1) % 0x1_0000_0000_0000_0000) as u64,
            ..self
        }
    }

    /// The session after activity at `now_ms`.
    pub open spec fn touched(self, now_ms: u64) -> RelaySession {
        RelaySession { last_activity_ms: now_ms, ..self }
    }

    /// The session after its client limiter checked a packet.
    pub open spec fn client_checked(self, bytes: usize, now_us: u64) -> RelaySession {
        RelaySession {
            client_rate_limiter: self.client_rate_limiter.checked(bytes, now_us),
            ..self
        }
    }

    /// The session after its upstream limiter checked a packet.
    pub open spec fn upstream_checked(self, bytes: usize, now_us: u64) -> RelaySession {
        RelaySession {
            upstream_rate_limiter: self.upstream_rate_limiter.checked(bytes, now_us),
            ..self
        }
    }

    /// The numbers of the session at `now_ns`.
    pub open spec fn snapshot(self, now_ns: u128) -> SessionStats {
        let age = monus(now_ns as nat, self.created_at_ns as nat);
        SessionStats {
            session_id: self.session_id,
            client_addr: self.client_addr,
            bytes_sent: self.bytes_sent,
            bytes_received: self.bytes_received,
            packets_sent: self.packets_sent,
            packets_received: self.packets_received,
            age: Duration {
                secs: (age / 1_000_000_000) as u64,
                nanos: (age % 1_000_000_000) as u32,
            },
        }
    }

    /// Create a new relay session without limits.
    pub fn new(session_id: SessionId, client_addr: SocketAddr) -> (s: RelaySession)
        ensures
            s == Self::fresh(session_id, client_addr, 0, 0, s.clock, s.created_at_ns),
            s.clock.started(),
            s.clock.reads_ns(s.created_at_ns),
    {
        Self::with_rate_limit(session_id, client_addr, 0, 0)
    }

    /// Create a new relay session with rate limits.
    ///
    /// - `max_pps`: Maximum packets per second (0 = unlimited)
    /// - `max_bps`: Maximum bytes per second (0 = unlimited)
    pub fn with_rate_limit(
        session_id: SessionId,
        client_addr: SocketAddr,
        max_pps: u32,
        max_bps: u64,
    ) -> (s: RelaySession)
        ensures
            s == Self::fresh(session_id, client_addr, max_pps, max_bps, s.clock, s.created_at_ns),
            s.clock.started(),
            s.clock.reads_ns(s.created_at_ns),
    {
        let clock = Clock::start();
        let now: u128 = clock.now_ns();
        Self::with_rate_limit_at(session_id, client_addr, max_pps, max_bps, clock, now)
    }

    /// Create a relay session that starts at `now_ns` of `clock`.
    pub fn with_rate_limit_at(
        session_id: SessionId,
        client_addr: SocketAddr,
        max_pps: u32,
        max_bps: u64,
        clock: Clock,
        now_ns: u128,
    ) -> (s: RelaySession)
        ensures
            s == Self::fresh(session_id, client_addr, max_pps, max_bps, clock, now_ns),
    {
        RelaySession {
            session_id,
            client_addr,
            last_activity_ms: ms_of(now_ns),
            created_at_ns: now_ns,
            bytes_sent: 0,
            bytes_received: 0,
            packets_sent: 0,
            packets_received: 0,
            client_rate_limiter: RateLimiter::new_at(max_pps, max_bps, clock, us_of(now_ns)),
            upstream_rate_limiter: RateLimiter::new_at(max_pps, max_bps, clock, us_of(now_ns)),
            clock,
        }
    }

    /// Check at `now_us` if a client -> upstream packet is allowed by rate limits.
    pub fn check_rate_limit_at(&mut self, bytes: usize, now_us: u64) -> (allowed: bool)
        requires
            old(self).client_rate_limiter.wf(),
        ensures
            allowed == old(self).client_rate_limiter.allows(bytes, now_us),
            *final(self) == old(self).client_checked(bytes, now_us),
    {
        self.client_rate_limiter.check_at(bytes, now_us)
    }

    /// Check if a client -> upstream packet is allowed by rate limits.
    pub fn check_rate_limit(&mut self, bytes: usize) -> (allowed: bool)
        requires
            old(self).client_rate_limiter.wf(),
        ensures
            old(self).client_rate_limiter.check_outcome(
                bytes,
                final(self).client_rate_limiter,
                allowed,
            ),
            *final(self) == (RelaySession {
                client_rate_limiter: final(self).client_rate_limiter,
                ..*old(self)
            }),
    {
        self.client_rate_limiter.check(bytes)
    }

    /// Check at `now_us` if an upstream -> client packet is allowed by rate limits.
    pub fn check_upstream_rate_limit_at(&mut self, bytes: usize, now_us: u64) -> (allowed: bool)
        requires
            old(self).upstream_rate_limiter.wf(),
        ensures
            allowed == old(self).upstream_rate_limiter.allows(bytes, now_us),
            *final(self) == old(self).upstream_checked(bytes, now_us),
    {
        self.upstream_rate_limiter.check_at(bytes, now_us)
    }

    /// Check if an upstream -> client packet is allowed by rate limits.
    pub fn check_upstream_rate_limit(&mut self, bytes: usize) -> (allowed: bool)
        requires
            old(self).upstream_rate_limiter.wf(),
        ensures
            old(self).upstream_rate_limiter.check_outcome(
                bytes,
                final(self).upstream_rate_limiter,
                allowed,
            ),
            *final(self) == (RelaySession {
                upstream_rate_limiter: final(self).upstream_rate_limiter,
                ..*old(self)
            }),
    {
        self.upstream_rate_limiter.check(bytes)
    }

    /// Set the last activity to `now_ms`.
    pub fn touch_at(&mut self, now_ms: u64)
        ensures
            *final(self) == old(self).touched(now_ms),
    {
        self.last_activity_ms = now_ms;
    }

    /// Update last activity timestamp.
    pub fn touch(&mut self)
        ensures
            *final(self) == old(self).touched(final(self).last_activity_ms),
            old(self).clock.reads_ms(final(self).last_activity_ms),
    {
        let now: u64 = self.clock.now_ms();
        self.touch_at(now);
    }

    /// Check at `now_ms` if the session has expired.
    pub fn is_expired_at(&self, timeout: Duration, now_ms: u64) -> (b: bool)
        ensures
            b == self.expired(timeout.millis() as u64, now_ms),
    {
        now_ms.saturating_sub(self.last_activity_ms) > timeout.as_millis() as u64
    }

    /// Check if session has expired.
    pub fn is_expired(&self, timeout: Duration) -> (b: bool)
        ensures
            exists|now_ms: u64|
                self.clock.reads_ms(now_ms) && b == #[trigger] self.expired(
                    timeout.millis() as u64,
                    now_ms,
                ),
    {
        let now: u64 = self.clock.now_ms();
        self.is_expired_at(timeout, now)
    }

    /// Record bytes sent (client -> upstream).
    pub fn record_sent(&mut self, bytes: usize)
        ensures
            *final(self) == old(self).sent(bytes),
    {
        self.bytes_sent = self.bytes_sent.wrapping_add(bytes as u64);
        self.packets_sent = self.packets_sent.wrapping_add(1);
    }

    /// Record bytes received (upstream -> client).
    pub fn record_received(&mut self, bytes: usize)
        ensures
            *final(self) == old(self).received(bytes),
    {
        self.bytes_received = self.bytes_received.wrapping_add(bytes as u64);
        self.packets_received = self.packets_received.wrapping_add(1);
    }

    /// Get session statistics at `now_ns`.
    pub fn stats_at(&self, now_ns: u128) -> (st: SessionStats)
        ensures
            st == self.snapshot(now_ns),
    {
        let age: u128 = now_ns.saturating_sub(self.created_at_ns);
        SessionStats {
            session_id: self.session_id,
            client_addr: self.client_addr,
            bytes_sent: self.bytes_sent,
            bytes_received: self.bytes_received,
            packets_sent: self.packets_sent,
            packets_received: self.packets_received,
            age: Duration {
                secs: (age / 1_000_000_000) as u64,
                nanos: (age % 1_000_000_000) as u32,
            },
        }
    }

    /// Get session statistics.
    pub fn stats(&self) -> (st: SessionStats)
        ensures
            exists|now_ns: u128| self.clock.reads_ns(now_ns) && st == #[trigger] self.snapshot(now_ns),
    {
        let now: u128 = self.clock.now_ns();
        self.stats_at(now)
    }
}

} // verus!
