//! The relay server: what happens to each packet.
//!
//! Packets are forwarded between clients and the upstream without being decrypted; only the
//! header is looked at. The caller receives and sends; the relay decides and counts.

use crate::net::{IpAddr, SocketAddr};
use crate::relay::config::RelayConfig;
use crate::relay::error::{RelayError, RelayResult};
use crate::relay::forward::{ForwardAction, ForwardEvent, HandshakeForward, Outcome};
use crate::relay::handshake_limiter::{
    HandshakeRateEntry, HandshakeRateLimiter, HandshakeRates, admission,
};
use crate::relay::metrics::RelayMetrics;
use crate::relay::rate_limiter::{law_packets_pay_their_price, law_time_is_counted_once};
use crate::relay::session::RelaySession;
use crate::relay::session_laws::paid;
use crate::relay::session_manager::{
    ClientPacketProcessResult, DEFAULT_MAX_SESSIONS_PER_IP, DEFAULT_MAX_TRACKED_IPS, SessionLimits,
    SessionManager, bursts_fit, client_packet, live_sessions, upstream_check, upstream_packet,
};
use crate::relay::stats::{AggregateStats, totals};
use crate::wire::{MessageType, PacketHeader};
use crate::time::{ms_of, us_of};
use vstd::prelude::*;

verus! {

/// Most additional packets to take from a socket before waiting again.
pub const RECV_BURST_BATCH: usize = 32;

pub const DEFAULT_MAX_CONCURRENT_HANDSHAKES: usize = 256;

pub const DEFAULT_HANDSHAKE_RATE_LIMIT_PPS: u32 = 64;

/// Relay-wide ceiling on handshakes per second, whatever their sources.
pub const DEFAULT_GLOBAL_HANDSHAKE_RATE_LIMIT_PPS: u32 = 256;

/// What becomes of a client's packet.
#[derive(Clone, Copy, Debug, PartialEq, Eq, Structural)]
pub enum ClientAction {
    /// Nothing; it is not even counted.
    Ignore,
    /// It was counted as dropped.
    Drop,
    /// Try to get one of the slots for handshakes.
    TryHandshake,
    /// Send it to the upstream.
    Forward,
}

/// What becomes of an upstream packet.
#[derive(Clone, Copy, Debug, PartialEq, Eq, Structural)]
pub enum UpstreamAction {
    /// Nothing; it is not even counted.
    Ignore,
    /// It was counted as dropped.
    Drop,
    /// Send it to this client.
    Return(SocketAddr),
}

/// How taking another packet from a socket went.
#[derive(Clone, Copy, Debug, PartialEq, Eq, Structural)]
pub enum Received {
    /// A packet of so many bytes.
    Packet(usize),
    /// None is there.
    WouldBlock,
    /// It failed.
    Failed,
}

/// Everything that packets change.
#[verifier::ext_equal]
pub struct RelayState {
    pub table: Map<u64, RelaySession>,
    pub rates: HandshakeRates,
    pub metrics: RelayMetrics,
}

impl RelayState {
    /// One more packet counts as dropped.
    pub open spec fn dropped(self) -> RelayState {
        RelayState { metrics: self.metrics.dropped(), ..self }
    }
}

/// What becomes of a client's packet of `len` bytes at `now_ns`. A packet that opens a handshake
/// must pass the handshake limits; any other one must belong to a session of its sender.
pub open spec fn client_decision(
    s: RelayState,
    l: SessionLimits,
    rates: (u32, u32),
    header: Option<PacketHeader>,
    client_addr: SocketAddr,
    len: usize,
    now_ns: u128,
) -> (ClientAction, RelayState) {
    match header {
        None => (ClientAction::Ignore, s),
        Some(h) => if h.msg_type.opens_handshake() {
            let a = admission(s.rates, rates.0, rates.1, client_addr.ip, now_ns);
            let s2 = RelayState { rates: a.1, ..s };
            if a.0 {
                (ClientAction::TryHandshake, s2)
            } else {
                (ClientAction::Drop, s2.dropped())
            }
        } else {
            let p = client_packet(s.table, l, h.session_id, client_addr, len, now_ns);
            let s2 = RelayState { table: p.1, ..s };
            match p.0 {
                ClientPacketProcessResult::Forward { is_new } => (
                    ClientAction::Forward,
                    if is_new {
                        RelayState { metrics: s2.metrics.session_created(), ..s2 }
                    } else {
                        s2
                    },
                ),
                _ => (ClientAction::Drop, s2.dropped()),
            }
        },
    }
}

/// What becomes of an upstream packet of `len` bytes at `now_ns`. A response to a handshake that
/// has no session counts as dropped: it should have come through the handshake's own socket. Any
/// other packet without a session is dropped too, and counts only if `count_strays`.
pub open spec fn upstream_decision(
    s: RelayState,
    l: SessionLimits,
    header: Option<PacketHeader>,
    len: usize,
    count_strays: bool,
    now_ns: u128,
) -> (UpstreamAction, RelayState) {
    match header {
        None => (UpstreamAction::Ignore, s),
        Some(h) => {
            let c = if l.limited() {
                upstream_check(s.table, h.session_id, len, now_ns)
            } else {
                (true, s.table)
            };
            let s2 = RelayState { table: c.1, ..s };
            if !c.0 {
                (UpstreamAction::Drop, s2.dropped())
            } else {
                let p = upstream_packet(s2.table, h.session_id, len, now_ns);
                match p.0 {
                    Some(addr) => (UpstreamAction::Return(addr), RelayState { table: p.1, ..s2 }),
                    None => if count_strays || h.msg_type is HandshakeResponse {
                        (UpstreamAction::Drop, s2.dropped())
                    } else {
                        (UpstreamAction::Ignore, s2)
                    },
                }
            }
        },
    }
}

/// What becomes of a client's packet in a batch: handshakes are left to the sockets of their own,
/// what may pass counts as forwarded when it is queued.
pub open spec fn batch_client_decision(
    s: RelayState,
    l: SessionLimits,
    header: Option<PacketHeader>,
    client_addr: Option<SocketAddr>,
    len: usize,
    now_ns: u128,
) -> (ClientAction, RelayState) {
    match (client_addr, header) {
        (Some(addr), Some(h)) => if h.msg_type.part_of_handshake() {
            (ClientAction::Ignore, s)
        } else {
            let d = client_decision(s, l, (0, 0), header, addr, len, now_ns);
            if d.0 is Forward {
                (
                    ClientAction::Forward,
                    RelayState { metrics: d.1.metrics.forwarded(len), ..d.1 },
                )
            } else {
                d
            }
        },
        _ => (ClientAction::Ignore, s),
    }
}

/// What becomes of an upstream packet in a batch: what may pass counts as returned when it is
/// queued.
pub open spec fn batch_upstream_decision(
    s: RelayState,
    l: SessionLimits,
    header: Option<PacketHeader>,
    len: usize,
    now_ns: u128,
) -> (UpstreamAction, RelayState) {
    let d = upstream_decision(s, l, header, len, true, now_ns);
    if d.0 is Return {
        (d.0, RelayState { metrics: d.1.metrics.returned(len), ..d.1 })
    } else {
        d
    }
}

/// After a client's packet was sent to the upstream, or could not be.
pub open spec fn after_forwarding(s: RelayState, ok: bool, len: usize) -> RelayState {
    if ok {
        RelayState { metrics: s.metrics.forwarded(len), ..s }
    } else {
        s
    }
}

/// After an upstream packet was sent to its client, or could not be.
pub open spec fn after_returning(s: RelayState, ok: bool, len: usize) -> RelayState {
    if ok {
        RelayState { metrics: s.metrics.returned(len), ..s }
    } else {
        s
    }
}

/// After the sessions that have expired at `now_ms` were removed.
pub open spec fn after_cleanup(s: RelayState, timeout_ms: u64, now_ms: u64) -> RelayState {
    let table = live_sessions(s.table, timeout_ms, now_ms);
    RelayState {
        table,
        metrics: s.metrics.sessions_removed((s.table.dom().len() - table.dom().len()) as nat),
        ..s
    }
}

/// The value, or what stands for it when it is missing.
pub open spec fn or_default<T>(o: Option<T>, default: T) -> T {
    match o {
        Some(v) => v,
        None => default,
    }
}

/// Whether taking packets from a socket without waiting goes on, after `taken` of them.
pub fn burst_continues(taken: usize, last: Received) -> (b: bool)
    ensures
        b == (taken < RECV_BURST_BATCH && last is Packet),
{
    match last {
        Received::Packet(_) => taken < RECV_BURST_BATCH,
        _ => false,
    }
}

/// The relay server.
pub struct RelayServer {
    config: RelayConfig,
    sessions: SessionManager,
    shutdown: bool,
    metrics: RelayMetrics,
    handshake_rate_limiter: HandshakeRateLimiter,
}

impl RelayServer {
    /// Everything that packets change.
    pub closed spec fn state(self) -> RelayState {
        RelayState {
            table: self.sessions.table(),
            rates: self.handshake_rate_limiter.rates(),
            metrics: self.metrics,
        }
    }

    /// The settings of the session table.
    pub closed spec fn settings(self) -> SessionLimits {
        self.sessions.settings()
    }

    /// The handshake limits: for each source, and for all together.
    pub closed spec fn handshake_limits(self) -> (u32, u32) {
        self.handshake_rate_limiter.limits()
    }

    /// The configuration.
    pub closed spec fn configuration(self) -> RelayConfig {
        self.config
    }

    /// Whether the relay is to stop.
    pub closed spec fn stopping(self) -> bool {
        self.shutdown
    }

    /// The configuration is valid and the session table is consistent.
    pub closed spec fn wf(self) -> bool {
        &&& self.sessions.wf()
        &&& self.config.complaint() is None
    }

    /// Nothing but the state differs.
    pub open spec fn same_setup(self, other: RelayServer) -> bool {
        &&& self.settings() == other.settings()
        &&& self.handshake_limits() == other.handshake_limits()
        &&& self.configuration() == other.configuration()
        &&& self.stopping() == other.stopping()
    }

    /// Create a new relay server.
    pub fn new(config: RelayConfig) -> (r: RelayResult<RelayServer>)
        ensures
            match r {
                Ok(s) => config.complaint() is None && s.wf() && s.configuration() == config
                    && !s.stopping(),
                Err(RelayError::Config(m)) => config.complaint() == Some(m@),
                Err(RelayError::Io(_)) => false,
            },
            r matches Ok(s) ==> set_up_from(s, config),
    {
        Self::with_shutdown(config, false)
    }

    /// Create a new relay server that may be told to stop already.
    pub fn with_shutdown(config: RelayConfig, shutdown: bool) -> (r: RelayResult<RelayServer>)
        ensures
            match r {
                Ok(s) => config.complaint() is None && s.wf() && s.configuration() == config
                    && s.stopping() == shutdown,
                Err(RelayError::Config(m)) => config.complaint() == Some(m@),
                Err(RelayError::Io(_)) => false,
            },
            r matches Ok(s) ==> set_up_from(s, config),
    {
        match config.validate() {
            Err(e) => {
                return Err(e);
            },
            Ok(_) => {},
        }
        let pps: u32 = config.rate_limit_pps.unwrap_or(0);
        let bps: u64 = config.rate_limit_bps.unwrap_or(0);
        let sessions = SessionManager::with_rate_limits(
            config.session_timeout(),
            config.max_sessions,
            pps,
            bps,
        );
        let clock = sessions.clock();
        let per_ip: u32 = config.handshake_rate_limit_pps.unwrap_or(
            DEFAULT_HANDSHAKE_RATE_LIMIT_PPS,
        );
        let global: u32 = config.handshake_global_rate_limit_pps.unwrap_or(
            DEFAULT_GLOBAL_HANDSHAKE_RATE_LIMIT_PPS,
        );
        let handshake_rate_limiter = HandshakeRateLimiter::with_clock(per_ip, global, clock);
        let metrics = RelayMetrics::new();
        Ok(RelayServer { config, sessions, shutdown, metrics, handshake_rate_limiter })
    }

    /// Get metrics reference.
    pub fn metrics(&self) -> (m: &RelayMetrics)
        ensures
            *m == self.state().metrics,
    {
        &self.metrics
    }

    /// The configuration.
    pub fn config(&self) -> (c: &RelayConfig)
        ensures
            *c == self.configuration(),
    {
        &self.config
    }

    /// How many handshakes may be forwarded at one time.
    pub fn max_concurrent_handshakes(&self) -> (n: usize)
        ensures
            n == or_default(
                self.configuration().max_concurrent_handshakes,
                DEFAULT_MAX_CONCURRENT_HANDSHAKES,
            ),
    {
        self.config.max_concurrent_handshakes.unwrap_or(DEFAULT_MAX_CONCURRENT_HANDSHAKES)
    }

    /// Microseconds on the relay's clock.
    pub fn now_ns(&self) -> (now: u128)
        ensures
            self.settings().clock.reads_ns(now),
    {
        self.sessions.now_ns()
    }

    /// Decides on a client's packet of `len` bytes at `now_ns`.
    pub fn handle_client_packet_at(
        &mut self,
        header: Option<PacketHeader>,
        client_addr: SocketAddr,
        len: usize,
        now_ns: u128,
    ) -> (a: ClientAction)
        requires
            old(self).wf(),
            bursts_fit(old(self).state().table, old(self).settings()),
        ensures
            final(self).wf(),
            final(self).same_setup(*old(self)),
            (a, final(self).state()) == client_decision(
                old(self).state(),
                old(self).settings(),
                old(self).handshake_limits(),
                header,
                client_addr,
                len,
                now_ns,
            ),
    {
        let h = match header {
            None => {
                return ClientAction::Ignore;
            },
            Some(h) => h,
        };
        if h.msg_type.is_handshake_opening() {
            if !self.handshake_rate_limiter.allow_at(client_addr.ip, now_ns) {
                self.metrics.record_drop();
                return ClientAction::Drop;
            }
            return ClientAction::TryHandshake;
        }
        match self.sessions.process_client_packet_at(h.session_id, client_addr, len, now_ns) {
            ClientPacketProcessResult::Forward { is_new } => {
                if is_new {
                    self.metrics.record_session_created();
                }
                ClientAction::Forward
            },
            _ => {
                self.metrics.record_drop();
                ClientAction::Drop
            },
        }
    }

    /// Decides on a client's packet of `len` bytes.
    pub fn handle_client_packet(
        &mut self,
        header: Option<PacketHeader>,
        client_addr: SocketAddr,
        len: usize,
    ) -> (a: ClientAction)
        requires
            old(self).wf(),
            bursts_fit(old(self).state().table, old(self).settings()),
        ensures
            final(self).wf(),
            final(self).same_setup(*old(self)),
            exists|now_ns: u128|
                old(self).settings().clock.reads_ns(now_ns) && (a, final(self).state()) == #[trigger] client_decision(
                    old(self).state(),
                    old(self).settings(),
                    old(self).handshake_limits(),
                    header,
                    client_addr,
                    len,
                    now_ns,
                ),
    {
        let now: u128 = self.now_ns();
        self.handle_client_packet_at(header, client_addr, len, now)
    }

    /// A handshake packet of `len` bytes got a slot, or did not: then it is dropped.
    pub fn begin_handshake(&mut self, acquired: bool, client_addr: SocketAddr, len: usize) -> (r:
        Option<HandshakeForward>)
        requires
            old(self).wf(),
        ensures
            final(self).wf(),
            final(self).same_setup(*old(self)),
            acquired ==> final(self).state() == old(self).state() && r == Some(
                HandshakeForward {
                    client_addr,
                    data_len: len,
                    deadline_ns: 0,
                    phase: crate::relay::forward::ForwardPhase::Binding,
                },
            ),
            !acquired ==> final(self).state() == old(self).state().dropped() && r is None,
    {
        if !acquired {
            self.metrics.record_drop();
            return None;
        }
        Some(HandshakeForward::new(client_addr, len))
    }

    /// Takes a handshake one step further at `now_ns`.
    pub fn step_handshake_at(
        &mut self,
        forward: &mut HandshakeForward,
        event: ForwardEvent,
        now_ns: u128,
    ) -> (a: ForwardAction)
        requires
            old(self).wf(),
        ensures
            final(self).wf(),
            final(self).same_setup(*old(self)),
            final(self).state().rates == old(self).state().rates,
            (Outcome {
                forward: *final(forward),
                action: a,
                table: final(self).state().table,
                metrics: final(self).state().metrics,
            }) == old(forward).progress(
                event,
                old(self).state().table,
                old(self).settings(),
                old(self).state().metrics,
                now_ns,
            ),
    {
        forward.step_at(event, &mut self.sessions, &mut self.metrics, now_ns)
    }

    /// A client's packet was sent to the upstream, or could not be.
    pub fn client_packet_sent(&mut self, ok: bool, len: usize)
        requires
            old(self).wf(),
        ensures
            final(self).wf(),
            final(self).same_setup(*old(self)),
            final(self).state() == after_forwarding(old(self).state(), ok, len),
    {
        if ok {
            self.metrics.record_forward(len);
        }
    }

    fn route_upstream(
        &mut self,
        header: Option<PacketHeader>,
        len: usize,
        count_strays: bool,
        now_ns: u128,
    ) -> (a: UpstreamAction)
        requires
            old(self).wf(),
            bursts_fit(old(self).state().table, old(self).settings()),
        ensures
            final(self).wf(),
            final(self).same_setup(*old(self)),
            (a, final(self).state()) == upstream_decision(
                old(self).state(),
                old(self).settings(),
                header,
                len,
                count_strays,
                now_ns,
            ),
    {
        let h = match header {
            None => {
                return UpstreamAction::Ignore;
            },
            Some(h) => h,
        };
        if self.sessions.is_rate_limited() {
            if !self.sessions.check_upstream_rate_limit_at(h.session_id, len, now_ns) {
                self.metrics.record_drop();
                return UpstreamAction::Drop;
            }
        }
        match self.sessions.process_upstream_packet_at(h.session_id, len, now_ns) {
            Some(addr) => UpstreamAction::Return(addr),
            None => {
                let response = match h.msg_type {
                    MessageType::HandshakeResponse => true,
                    _ => false,
                };
                if count_strays || response {
                    self.metrics.record_drop();
                    UpstreamAction::Drop
                } else {
                    UpstreamAction::Ignore
                }
            },
        }
    }

    /// Decides on an upstream packet of `len` bytes at `now_ns`.
    pub fn handle_upstream_packet_at(
        &mut self,
        header: Option<PacketHeader>,
        len: usize,
        now_ns: u128,
    ) -> (a: UpstreamAction)
        requires
            old(self).wf(),
            bursts_fit(old(self).state().table, old(self).settings()),
        ensures
            final(self).wf(),
            final(self).same_setup(*old(self)),
            (a, final(self).state()) == upstream_decision(
                old(self).state(),
                old(self).settings(),
                header,
                len,
                false,
                now_ns,
            ),
    {
        self.route_upstream(header, len, false, now_ns)
    }

    /// Decides on an upstream packet of `len` bytes.
    pub fn handle_upstream_packet(&mut self, header: Option<PacketHeader>, len: usize) -> (a:
        UpstreamAction)
        requires
            old(self).wf(),
            bursts_fit(old(self).state().table, old(self).settings()),
        ensures
            final(self).wf(),
            final(self).same_setup(*old(self)),
            exists|now_ns: u128|
                old(self).settings().clock.reads_ns(now_ns) && (a, final(self).state()) == #[trigger] upstream_decision(
                    old(self).state(),
                    old(self).settings(),
                    header,
                    len,
                    false,
                    now_ns,
                ),
    {
        let now: u128 = self.now_ns();
        self.handle_upstream_packet_at(header, len, now)
    }

    /// An upstream packet was sent to its client, or could not be.
    pub fn upstream_packet_sent(&mut self, ok: bool, len: usize)
        requires
            old(self).wf(),
        ensures
            final(self).wf(),
            final(self).same_setup(*old(self)),
            final(self).state() == after_returning(old(self).state(), ok, len),
    {
        if ok {
            self.metrics.record_return(len);
        }
    }

    /// Decides on a client's packet in a batch at `now_ns`.
    pub fn batch_client_packet_at(
        &mut self,
        header: Option<PacketHeader>,
        client_addr: Option<SocketAddr>,
        len: usize,
        now_ns: u128,
    ) -> (a: ClientAction)
        requires
            old(self).wf(),
            bursts_fit(old(self).state().table, old(self).settings()),
        ensures
            final(self).wf(),
            final(self).same_setup(*old(self)),
            (a, final(self).state()) == batch_client_decision(
                old(self).state(),
                old(self).settings(),
                header,
                client_addr,
                len,
                now_ns,
            ),
    {
        let addr = match client_addr {
            None => {
                return ClientAction::Ignore;
            },
            Some(a) => a,
        };
        let h = match header {
            None => {
                return ClientAction::Ignore;
            },
            Some(h) => h,
        };
        if h.msg_type.is_handshake() {
            return ClientAction::Ignore;
        }
        match self.sessions.process_client_packet_at(h.session_id, addr, len, now_ns) {
            ClientPacketProcessResult::Forward { is_new } => {
                if is_new {
                    self.metrics.record_session_created();
                }
                self.metrics.record_forward(len);
                ClientAction::Forward
            },
            _ => {
                self.metrics.record_drop();
                ClientAction::Drop
            },
        }
    }

    /// Decides on an upstream packet in a batch at `now_ns`.
    pub fn batch_upstream_packet_at(
        &mut self,
        header: Option<PacketHeader>,
        len: usize,
        now_ns: u128,
    ) -> (a: UpstreamAction)
        requires
            old(self).wf(),
            bursts_fit(old(self).state().table, old(self).settings()),
        ensures
            final(self).wf(),
            final(self).same_setup(*old(self)),
            (a, final(self).state()) == batch_upstream_decision(
                old(self).state(),
                old(self).settings(),
                header,
                len,
                now_ns,
            ),
    {
        let a = self.route_upstream(header, len, true, now_ns);
        match a {
            UpstreamAction::Return(_) => {
                self.metrics.record_return(len);
            },
            _ => {},
        }
        a
    }

    /// Removes the sessions that have expired at `now_ns`, and counts them.
    pub fn cleanup_at(&mut self, now_ns: u128) -> (removed: usize)
        requires
            old(self).wf(),
        ensures
            final(self).wf(),
            final(self).same_setup(*old(self)),
            final(self).state() == after_cleanup(
                old(self).state(),
                old(self).settings().timeout_ms(),
                ms_of(now_ns),
            ),
            final(self).state().table == live_sessions(
                old(self).state().table,
                old(self).settings().timeout_ms(),
                ms_of(now_ns),
            ),
            final(self).state().rates == old(self).state().rates,
            final(self).state().metrics == old(self).state().metrics.sessions_removed(
                removed as nat,
            ),
            removed == old(self).state().table.dom().len() - final(self).state().table.dom().len(),
    {
        let removed: usize = self.sessions.cleanup_expired_at(now_ns);
        self.metrics.record_sessions_removed(removed);
        removed
    }

    /// A health probe went out, or could not be sent. Returns whether that changed the health.
    pub fn probe_sent(&mut self, ok: bool) -> (changed: bool)
        requires
            old(self).wf(),
        ensures
            final(self).wf(),
            final(self).same_setup(*old(self)),
            changed == (ok != old(self).state().metrics.upstream_healthy),
            final(self).state() == (RelayState {
                metrics: old(self).state().metrics.observed(ok),
                ..old(self).state()
            }),
    {
        self.metrics.observe_probe(ok)
    }

    /// The line of statistics, after the name of the relay if it has one.
    pub fn stats_line(&self) -> (s: String)
        requires
            self.wf(),
        ensures
            s@ == match self.configuration().relay_id {
                Some(id) => "["@ + id@ + "] "@ + totals(self.state().table).line(),
                None => totals(self.state().table).line(),
            },
    {
        let line = self.sessions.aggregate_stats().format();
        match &self.config.relay_id {
            Some(id) => {
                let mut s = String::from_str("[");
                s.append(id.as_str());
                s.append("] ");
                s.append(line.as_str());
                s
            },
            None => line,
        }
    }

    /// Shutdown the relay server.
    pub fn shutdown(&mut self)
        requires
            old(self).wf(),
        ensures
            final(self).wf(),
            final(self).stopping(),
            final(self).state() == old(self).state(),
            final(self).settings() == old(self).settings(),
            final(self).handshake_limits() == old(self).handshake_limits(),
            final(self).configuration() == old(self).configuration(),
    {
        self.shutdown = true;
    }

    /// Check if server is shutting down.
    pub fn is_shutdown(&self) -> (b: bool)
        ensures
            b == self.stopping(),
    {
        self.shutdown
    }

    /// Get current session count.
    pub fn session_count(&self) -> (n: usize)
        ensures
            n == self.state().table.dom().len(),
    {
        self.sessions.session_count()
    }

    /// Get aggregate statistics.
    pub fn stats(&self) -> (st: AggregateStats)
        requires
            self.wf(),
        ensures
            st == totals(self.state().table),
    {
        self.sessions.aggregate_stats()
    }
}

/// The relay starts empty, with the limits of its configuration or their defaults.
pub open spec fn set_up_from(s: RelayServer, config: RelayConfig) -> bool {
    &&& s.settings() == (SessionLimits {
        timeout: crate::time::Duration { secs: config.session_timeout_secs, nanos: 0 },
        max_sessions: config.max_sessions,
        max_sessions_per_ip: DEFAULT_MAX_SESSIONS_PER_IP,
        max_tracked_ips: DEFAULT_MAX_TRACKED_IPS,
        rate_limit_pps: or_default(config.rate_limit_pps, 0u32),
        rate_limit_bps: or_default(config.rate_limit_bps, 0u64),
        clock: s.settings().clock,
    })
    &&& s.handshake_limits() == (
        or_default(config.handshake_rate_limit_pps, DEFAULT_HANDSHAKE_RATE_LIMIT_PPS),
        or_default(config.handshake_global_rate_limit_pps, DEFAULT_GLOBAL_HANDSHAKE_RATE_LIMIT_PPS),
    )
    &&& s.settings().clock.started()
    &&& s.state().table == Map::<u64, RelaySession>::empty()
    &&& s.state().rates.global.count == 0
    &&& s.state().rates.entries == Map::<IpAddr, HandshakeRateEntry>::empty()
    &&& s.state().metrics == RelayMetrics::zero(s.state().metrics.clock)
    &&& s.state().metrics.clock.started()
}

/// Whatever a client sends, it creates no session: only a handshake that the upstream answers
/// does.
pub proof fn law_clients_create_no_sessions(
    s: RelayState,
    l: SessionLimits,
    rates: (u32, u32),
    header: Option<PacketHeader>,
    client_addr: SocketAddr,
    len: usize,
    now_ns: u128,
)
    ensures
        client_decision(s, l, rates, header, client_addr, len, now_ns).1.table.dom()
            == s.table.dom(),
        batch_client_decision(s, l, header, Some(client_addr), len, now_ns).1.table.dom()
            == s.table.dom(),
{
    assert(client_decision(s, l, rates, header, client_addr, len, now_ns).1.table.dom()
        =~= s.table.dom());
    assert(batch_client_decision(s, l, header, Some(client_addr), len, now_ns).1.table.dom()
        =~= s.table.dom());
}

/// Both ways of receiving decide alike on packets outside a handshake.
pub proof fn law_batches_decide_alike(
    s: RelayState,
    l: SessionLimits,
    rates: (u32, u32),
    h: PacketHeader,
    client_addr: SocketAddr,
    len: usize,
    now_ns: u128,
)
    requires
        !h.msg_type.part_of_handshake(),
    ensures
        client_decision(s, l, rates, Some(h), client_addr, len, now_ns).0
            == batch_client_decision(s, l, Some(h), Some(client_addr), len, now_ns).0,
        client_decision(s, l, rates, Some(h), client_addr, len, now_ns).1.table
            == batch_client_decision(s, l, Some(h), Some(client_addr), len, now_ns).1.table,
{
}

/// A client's packet goes to the upstream only if it belongs to a session of its sender.
pub proof fn law_only_bound_clients_are_forwarded(
    s: RelayState,
    l: SessionLimits,
    rates: (u32, u32),
    header: Option<PacketHeader>,
    client_addr: SocketAddr,
    len: usize,
    now_ns: u128,
)
    requires
        client_decision(s, l, rates, header, client_addr, len, now_ns).0 is Forward,
    ensures
        header is Some,
        s.table.contains_key(header->0.session_id.0),
        s.table[header->0.session_id.0].client_addr == client_addr,
{
}

/// With limits configured a packet is returned to a client only if the upstream limiter of its
/// session allows it, and the limiter is charged for it.
pub proof fn law_returned_packets_pass_the_limiter(
    s: RelayState,
    l: SessionLimits,
    h: PacketHeader,
    len: usize,
    count_strays: bool,
    now_ns: u128,
)
    requires
        l.rate_limit_pps > 0 || l.rate_limit_bps > 0,
        upstream_decision(s, l, Some(h), len, count_strays, now_ns).0 is Return,
    ensures
        s.table.contains_key(h.session_id.0),
        s.table[h.session_id.0].upstream_rate_limiter.allows(len, us_of(now_ns)),
        ({
            let before = s.table[h.session_id.0].upstream_rate_limiter;
            let after = upstream_decision(
                s,
                l,
                Some(h),
                len,
                count_strays,
                now_ns,
            ).1.table[h.session_id.0].upstream_rate_limiter;
            !before.no_limit() ==> paid(before, after, len, us_of(now_ns))
        }),
{
}

/// How many of `n` packets of `len` bytes are returned to the client of a session when they come
/// one after the other at one time.
pub open spec fn returned_in_a_row(
    s: RelayState,
    l: SessionLimits,
    h: PacketHeader,
    len: usize,
    now_ns: u128,
    n: nat,
) -> nat
    decreases n,
{
    if n == 0 {
        0
    } else {
        let d = upstream_decision(s, l, Some(h), len, false, now_ns);
        returned_in_a_row(d.1, l, h, len, now_ns, (n - 1) as nat) + (if d.0 is Return {
            1nat
        } else {
            0nat
        })
    }
}

/// How many of `n` packets of `len` bytes are forwarded to the upstream when a client sends them
/// one after the other at one time.
pub open spec fn forwarded_in_a_row(
    s: RelayState,
    l: SessionLimits,
    rates: (u32, u32),
    h: PacketHeader,
    client_addr: SocketAddr,
    len: usize,
    now_ns: u128,
    n: nat,
) -> nat
    decreases n,
{
    if n == 0 {
        0
    } else {
        let d = client_decision(s, l, rates, Some(h), client_addr, len, now_ns);
        forwarded_in_a_row(d.1, l, rates, h, client_addr, len, now_ns, (n - 1) as nat) + (
        if d.0 is Forward {
            1nat
        } else {
            0nat
        })
    }
}

/// While no time passes, no more packets are returned to a client than its session has packet
/// tokens for, nor more bytes than it has byte tokens for.
pub proof fn law_returns_are_limited(
    s: RelayState,
    l: SessionLimits,
    h: PacketHeader,
    len: usize,
    now_ns: u128,
    n: nat,
)
    requires
        l.rate_limit_pps > 0 || l.rate_limit_bps > 0,
        s.table.contains_key(h.session_id.0),
    ensures
        ({
            let r = s.table[h.session_id.0].upstream_rate_limiter;
            let returned = returned_in_a_row(s, l, h, len, now_ns, n);
            &&& r.max_pps > 0 ==> returned <= r.refilled(us_of(now_ns)).packet_tokens
            &&& r.max_bps > 0 ==> returned * len <= r.refilled(us_of(now_ns)).byte_tokens
        }),
    decreases n,
{
    let r = s.table[h.session_id.0].upstream_rate_limiter;
    assert(0 * (len as int) == 0);
    if n > 0 {
        let d = upstream_decision(s, l, Some(h), len, false, now_ns);
        let r2 = d.1.table[h.session_id.0].upstream_rate_limiter;
        law_returns_are_limited(d.1, l, h, len, now_ns, (n - 1) as nat);
        law_packets_pay_their_price(r, len, us_of(now_ns));
        law_time_is_counted_once(r, us_of(now_ns));
        let later = returned_in_a_row(d.1, l, h, len, now_ns, (n - 1) as nat);
        assert((later + 1) * (len as int) == later * (len as int) + len) by (nonlinear_arith);
        assert(r2 == r.checked(len, us_of(now_ns)));
    }
}

/// While no time passes, no more packets of a client are forwarded than its session has packet
/// tokens for, nor more bytes than it has byte tokens for.
pub proof fn law_forwards_are_limited(
    s: RelayState,
    l: SessionLimits,
    rates: (u32, u32),
    h: PacketHeader,
    client_addr: SocketAddr,
    len: usize,
    now_ns: u128,
    n: nat,
)
    requires
        l.rate_limit_pps > 0 || l.rate_limit_bps > 0,
        !h.msg_type.opens_handshake(),
        s.table.contains_key(h.session_id.0),
    ensures
        ({
            let r = s.table[h.session_id.0].client_rate_limiter;
            let sent = forwarded_in_a_row(s, l, rates, h, client_addr, len, now_ns, n);
            &&& r.max_pps > 0 ==> sent <= r.refilled(us_of(now_ns)).packet_tokens
            &&& r.max_bps > 0 ==> sent * len <= r.refilled(us_of(now_ns)).byte_tokens
        }),
    decreases n,
{
    let r = s.table[h.session_id.0].client_rate_limiter;
    assert(0 * (len as int) == 0);
    if n > 0 {
        let d = client_decision(s, l, rates, Some(h), client_addr, len, now_ns);
        let r2 = d.1.table[h.session_id.0].client_rate_limiter;
        law_forwards_are_limited(d.1, l, rates, h, client_addr, len, now_ns, (n - 1) as nat);
        law_packets_pay_their_price(r, len, us_of(now_ns));
        law_time_is_counted_once(r, us_of(now_ns));
        let later = forwarded_in_a_row(d.1, l, rates, h, client_addr, len, now_ns, (n - 1) as nat);
        assert((later + 1) * (len as int) == later * (len as int) + len) by (nonlinear_arith);
        assert(r2 == r.checked(len, us_of(now_ns)) || r2 == r);
    }
}

/// A packet from upstream goes to the client of its session whenever there are no limits or the
/// session's upstream limiter allows it, and to nobody else; and it renews the session.
pub proof fn law_upstream_packets_are_returned(
    s: RelayState,
    l: SessionLimits,
    h: PacketHeader,
    len: usize,
    count_strays: bool,
    now_ns: u128,
)
    ensures
        ({
            let d = upstream_decision(s, l, Some(h), len, count_strays, now_ns);
            let k = h.session_id.0;
            &&& d.0 is Return <==> s.table.contains_key(k) && (l.rate_limit_pps == 0
                && l.rate_limit_bps == 0 || s.table[k].upstream_rate_limiter.allows(
                len,
                us_of(now_ns),
            ))
            &&& d.0 is Return ==> d.0 == UpstreamAction::Return(s.table[k].client_addr)
                && d.1.table[k].last_activity_ms == ms_of(now_ns)
            &&& !(d.0 is Return) && s.table.contains_key(k) ==> d.0 is Drop
                && d.1.table[k].last_activity_ms == s.table[k].last_activity_ms
        }),
{
}

/// Every packet that is dropped counts as dropped once, and no other does; nothing else of the
/// counters changes with an upstream packet.
pub proof fn law_upstream_drops_are_counted(
    s: RelayState,
    l: SessionLimits,
    header: Option<PacketHeader>,
    len: usize,
    count_strays: bool,
    now_ns: u128,
)
    requires
        s.metrics.packets_dropped < u64::MAX,
    ensures
        ({
            let d = upstream_decision(s, l, header, len, count_strays, now_ns);
            &&& d.1.metrics.packets_dropped == s.metrics.packets_dropped + (if d.0 is Drop {
                1int
            } else {
                0int
            })
            &&& d.1.metrics == (RelayMetrics {
                packets_dropped: d.1.metrics.packets_dropped,
                ..s.metrics
            })
            &&& d.1.rates == s.rates
            &&& d.1.table.dom() == s.table.dom()
            &&& header is None ==> d.0 is Ignore
        }),
{
    let d = upstream_decision(s, l, header, len, count_strays, now_ns);
    assert(d.1.table.dom() =~= s.table.dom());
}

/// A packet from upstream that belongs to no session reaches no client. Without limits it counts
/// as dropped if it answers a handshake or strays are counted; with limits it always does.
pub proof fn law_strays_reach_nobody(
    s: RelayState,
    l: SessionLimits,
    h: PacketHeader,
    len: usize,
    count_strays: bool,
    now_ns: u128,
)
    requires
        !s.table.contains_key(h.session_id.0),
    ensures
        ({
            let d = upstream_decision(s, l, Some(h), len, count_strays, now_ns);
            &&& d.1.table == s.table
            &&& d.0 is Drop <==> count_strays || h.msg_type is HandshakeResponse
                || l.rate_limit_pps > 0 || l.rate_limit_bps > 0
            &&& d.0 is Ignore <==> !(d.0 is Drop)
        }),
{
}

/// Every packet of a client that is dropped counts as dropped once, and no other does; no other
/// counter changes before it was sent.
pub proof fn law_client_drops_are_counted(
    s: RelayState,
    l: SessionLimits,
    rates: (u32, u32),
    header: Option<PacketHeader>,
    client_addr: SocketAddr,
    len: usize,
    now_ns: u128,
)
    requires
        s.metrics.packets_dropped < u64::MAX,
    ensures
        ({
            let d = client_decision(s, l, rates, header, client_addr, len, now_ns);
            &&& d.1.metrics.packets_dropped == s.metrics.packets_dropped + (if d.0 is Drop {
                1int
            } else {
                0int
            })
            &&& d.1.metrics == (RelayMetrics {
                packets_dropped: d.1.metrics.packets_dropped,
                ..s.metrics
            })
            &&& header is None <==> d.0 is Ignore
        }),
{
}

/// What opens a handshake passes the handshake limits and touches no session; everything else
/// passes by its session and touches no handshake limit.
pub proof fn law_handshakes_and_sessions_are_apart(
    s: RelayState,
    l: SessionLimits,
    rates: (u32, u32),
    h: PacketHeader,
    client_addr: SocketAddr,
    len: usize,
    now_ns: u128,
)
    ensures
        ({
            let d = client_decision(s, l, rates, Some(h), client_addr, len, now_ns);
            let k = h.session_id.0;
            &&& h.msg_type.opens_handshake() ==> d.1.table == s.table && (d.0 is TryHandshake
                <==> admission(s.rates, rates.0, rates.1, client_addr.ip, now_ns).0) && (d.0 is Drop
                || d.0 is TryHandshake)
            &&& !h.msg_type.opens_handshake() ==> d.1.rates == s.rates && (d.0 is Drop || d.0
                is Forward)
            &&& !h.msg_type.opens_handshake() ==> (d.0 is Forward <==> k != 0
                && s.table.contains_key(k) && s.table[k].client_addr == client_addr && (
            l.rate_limit_pps == 0 && l.rate_limit_bps == 0
                || s.table[k].client_rate_limiter.allows(len, us_of(now_ns))))
        }),
{
}

/// A packet that is forwarded or returned renews its session: the next cleanup that takes it away
/// comes only after the timeout.
pub proof fn law_traffic_keeps_sessions_alive(
    s: RelayState,
    l: SessionLimits,
    rates: (u32, u32),
    h: PacketHeader,
    client_addr: SocketAddr,
    len: usize,
    count_strays: bool,
    now_ns: u128,
    later_ms: u64,
)
    requires
        later_ms <= ms_of(now_ns) + l.timeout_ms(),
    ensures
        client_decision(s, l, rates, Some(h), client_addr, len, now_ns).0 is Forward
            ==> live_sessions(
            client_decision(s, l, rates, Some(h), client_addr, len, now_ns).1.table,
            l.timeout_ms(),
            later_ms,
        ).contains_key(h.session_id.0),
        upstream_decision(s, l, Some(h), len, count_strays, now_ns).0 is Return ==> live_sessions(
            upstream_decision(s, l, Some(h), len, count_strays, now_ns).1.table,
            l.timeout_ms(),
            later_ms,
        ).contains_key(h.session_id.0),
{
}

/// In a batch a client's packet that passes is counted at once with its bytes, and no other; what
/// belongs to a handshake is left alone.
pub proof fn law_batches_count_what_is_forwarded(
    s: RelayState,
    l: SessionLimits,
    h: PacketHeader,
    client_addr: SocketAddr,
    len: usize,
    now_ns: u128,
)
    requires
        s.metrics.packets_forwarded < u64::MAX,
        s.metrics.bytes_forwarded + len <= u64::MAX,
    ensures
        ({
            let c = batch_client_decision(s, l, Some(h), Some(client_addr), len, now_ns);
            let passed = c.0 is Forward;
            &&& c.1.metrics.packets_forwarded == s.metrics.packets_forwarded + (if passed {
                1int
            } else {
                0int
            })
            &&& c.1.metrics.bytes_forwarded == s.metrics.bytes_forwarded + (if passed {
                len as int
            } else {
                0int
            })
            &&& c.1.metrics.packets_returned == s.metrics.packets_returned
            &&& c.1.metrics.bytes_returned == s.metrics.bytes_returned
            &&& h.msg_type.part_of_handshake() ==> c.0 is Ignore && c.1 == s
        }),
{
    if !h.msg_type.part_of_handshake() {
        let d = client_decision(s, l, (0, 0), Some(h), client_addr, len, now_ns);
        assert(d.1.metrics.packets_forwarded == s.metrics.packets_forwarded);
        assert(d.1.metrics.bytes_forwarded == s.metrics.bytes_forwarded);
    }
}

/// In a batch an upstream packet that passes is counted at once with its bytes, and no other.
pub proof fn law_batches_count_what_is_returned(
    s: RelayState,
    l: SessionLimits,
    header: Option<PacketHeader>,
    len: usize,
    now_ns: u128,
)
    requires
        s.metrics.packets_returned < u64::MAX,
        s.metrics.bytes_returned + len <= u64::MAX,
    ensures
        ({
            let u = batch_upstream_decision(s, l, header, len, now_ns);
            let passed = u.0 is Return;
            &&& u.1.metrics.packets_returned == s.metrics.packets_returned + (if passed {
                1int
            } else {
                0int
            })
            &&& u.1.metrics.bytes_returned == s.metrics.bytes_returned + (if passed {
                len as int
            } else {
                0int
            })
            &&& u.1.metrics.packets_forwarded == s.metrics.packets_forwarded
            &&& u.1.metrics.bytes_forwarded == s.metrics.bytes_forwarded
            &&& u.0 == upstream_decision(s, l, header, len, true, now_ns).0
            &&& u.1.table == upstream_decision(s, l, header, len, true, now_ns).1.table
        }),
{
    let d = upstream_decision(s, l, header, len, true, now_ns);
    assert(d.1.metrics.packets_returned == s.metrics.packets_returned);
    assert(d.1.metrics.bytes_returned == s.metrics.bytes_returned);
    assert(d.1.metrics.packets_forwarded == s.metrics.packets_forwarded);
    assert(d.1.metrics.bytes_forwarded == s.metrics.bytes_forwarded);
}

/// A relay is set up with what its configuration says, and otherwise with sixty-four handshakes a
/// second for each source and 256 for all, a hundred sessions for each address, a hundred thousand
/// addresses, and no limit on the packets of a session.
pub proof fn law_settings_come_from_the_configuration(s: RelayServer, config: RelayConfig)
    requires
        set_up_from(s, config),
    ensures
        s.settings().max_sessions == config.max_sessions,
        s.settings().timeout.secs == config.session_timeout_secs,
        s.settings().timeout.nanos == 0,
        s.settings().max_sessions_per_ip == 100,
        s.settings().max_tracked_ips == 100_000,
        config.rate_limit_pps matches Some(n) ==> s.settings().rate_limit_pps == n,
        config.rate_limit_pps is None ==> s.settings().rate_limit_pps == 0,
        config.rate_limit_bps matches Some(n) ==> s.settings().rate_limit_bps == n,
        config.rate_limit_bps is None ==> s.settings().rate_limit_bps == 0,
        config.handshake_rate_limit_pps matches Some(n) ==> s.handshake_limits().0 == n,
        config.handshake_rate_limit_pps is None ==> s.handshake_limits().0 == 64,
        config.handshake_global_rate_limit_pps matches Some(n) ==> s.handshake_limits().1 == n,
        config.handshake_global_rate_limit_pps is None ==> s.handshake_limits().1 == 256,
        s.state().table.dom() == Set::<u64>::empty(),
{
    assert(s.state().table.dom() =~= Set::<u64>::empty());
}

/// A packet counts as forwarded or returned, with its bytes, exactly when it could be sent; nothing
/// else changes.
pub proof fn law_only_sent_packets_count(s: RelayState, ok: bool, len: usize)
    requires
        s.metrics.packets_forwarded < u64::MAX,
        s.metrics.packets_returned < u64::MAX,
        s.metrics.bytes_forwarded + len <= u64::MAX,
        s.metrics.bytes_returned + len <= u64::MAX,
    ensures
        after_forwarding(s, ok, len) == (if ok {
            RelayState {
                metrics: RelayMetrics {
                    packets_forwarded: (s.metrics.packets_forwarded + 1) as u64,
                    bytes_forwarded: (s.metrics.bytes_forwarded + len) as u64,
                    ..s.metrics
                },
                ..s
            }
        } else {
            s
        }),
        after_returning(s, ok, len) == (if ok {
            RelayState {
                metrics: RelayMetrics {
                    packets_returned: (s.metrics.packets_returned + 1) as u64,
                    bytes_returned: (s.metrics.bytes_returned + len) as u64,
                    ..s.metrics
                },
                ..s
            }
        } else {
            s
        }),
{
}

/// A cleanup takes away exactly the sessions that were idle for longer than the timeout, leaves the
/// others as they are, and lowers the number of active sessions by as many as it took.
pub proof fn law_cleanup_takes_idle_sessions(
    s: RelayState,
    timeout_ms: u64,
    now_ms: u64,
    k: u64,
)
    requires
        s.table.dom().finite(),
        s.table.contains_key(k),
        s.metrics.sessions_active >= s.table.dom().len(),
    ensures
        ({
            let after = after_cleanup(s, timeout_ms, now_ms);
            &&& after.table.contains_key(k) <==> now_ms <= s.table[k].last_activity_ms + timeout_ms
            &&& after.table.contains_key(k) ==> after.table[k] == s.table[k]
            &&& s.metrics.sessions_active - after.metrics.sessions_active == s.table.dom().len()
                - after.table.dom().len()
            &&& after.metrics.sessions_total == s.metrics.sessions_total
            &&& after.metrics.packets_dropped == s.metrics.packets_dropped
            &&& after.rates == s.rates
        }),
{
    let after = after_cleanup(s, timeout_ms, now_ms);
    assert(after.table.dom().subset_of(s.table.dom()));
    vstd::set_lib::lemma_len_subset(after.table.dom(), s.table.dom());
}

} // verus!
