//! The table of relay sessions.
//!
//! Maintains state for forwarding packets between clients and upstream.

use crate::hash_keys::keys_of;
use crate::ip_map::IpMap;
use crate::model::{
    lemma_map_sum_bound, lemma_map_sum_insert, lemma_map_sum_positive, lemma_map_sum_remove,
    lemma_map_sum_update, lemma_map_sum_zero, map_sum,
};
use crate::net::{IpAddr, SocketAddr};
use crate::relay::session::{RelaySession, SessionId, SessionStats};
use crate::relay::stats::{AggregateStats, totals, word};
use crate::time::{Clock, Duration, ms_of, us_of};
use std::collections::HashMap;
use vstd::prelude::*;

verus! {

broadcast use vstd::std_specs::hash::group_hash_axioms;

/// Default maximum sessions per IP.
pub const DEFAULT_MAX_SESSIONS_PER_IP: usize = 100;

/// Default maximum unique IPs to track, so that spoofed sources cannot grow the table of
/// addresses without bound.
pub const DEFAULT_MAX_TRACKED_IPS: usize = 100_000;

/// The fixed settings of a session manager.
#[derive(Clone, Copy)]
pub struct SessionLimits {
    /// Session timeout duration.
    pub timeout: Duration,
    /// Maximum sessions allowed.
    pub max_sessions: usize,
    /// Maximum sessions per IP address.
    pub max_sessions_per_ip: usize,
    /// Maximum unique IPs to track.
    pub max_tracked_ips: usize,
    /// Max packets per second per session (0 = unlimited).
    pub rate_limit_pps: u32,
    /// Max bytes per second per session (0 = unlimited).
    pub rate_limit_bps: u64,
    /// The clock of every time in the table.
    pub clock: Clock,
}

impl SessionLimits {
    /// The timeout in milliseconds.
    pub open spec fn timeout_ms(self) -> u64 {
        self.timeout.millis() as u64
    }

    /// Whether sessions have a rate limit.
    pub open spec fn limited(self) -> bool {
        self.rate_limit_pps > 0 || self.rate_limit_bps > 0
    }
}

/// Number of sessions whose client has the address `ip`.
pub open spec fn sessions_from(t: Map<u64, RelaySession>, ip: IpAddr) -> int {
    map_sum(t, from_ip(ip))
}

/// One for a session of `ip`, zero for any other.
pub open spec fn from_ip(ip: IpAddr) -> spec_fn(RelaySession) -> int {
    |s: RelaySession|
        if s.client_addr.ip == ip {
            1int
        } else {
            0int
        }
}

/// The addresses that have at least one session.
pub open spec fn tracked_ips(t: Map<u64, RelaySession>) -> Set<IpAddr> {
    Set::new(|ip: IpAddr| exists|k: u64| #[trigger] t.contains_key(k) && t[k].client_addr.ip == ip)
}

/// Whether the buckets of the sessions, if there are any, can hold twice the rate.
pub open spec fn bursts_fit(t: Map<u64, RelaySession>, l: SessionLimits) -> bool {
    (exists|k: u64| #[trigger] t.contains_key(k)) ==> 2 * l.rate_limit_bps <= u64::MAX
}

/// The sessions that have not expired at `now_ms`.
pub open spec fn live_sessions(t: Map<u64, RelaySession>, timeout_ms: u64, now_ms: u64) -> Map<
    u64,
    RelaySession,
> {
    Map::new(
        |k: u64| t.contains_key(k) && !t[k].expired(timeout_ms, now_ms),
        |k: u64| t[k],
    )
}

/// The counts agree with the table: exactly the addresses with a session have a count, and it is
/// the number of their sessions.
pub open spec fn counts_match(c: Map<IpAddr, usize>, t: Map<u64, RelaySession>) -> bool {
    &&& c.dom() == tracked_ips(t)
    &&& forall|ip: IpAddr| #[trigger] c.contains_key(ip) ==> c[ip] == sessions_from(t, ip)
}

/// The counts with one session of `ip` less.
pub open spec fn decremented(c: Map<IpAddr, usize>, ip: IpAddr) -> Map<IpAddr, usize> {
    if !c.contains_key(ip) {
        c
    } else if c[ip] <= 1 {
        c.remove(ip)
    } else {
        c.insert(ip, (c[ip] - 1) as usize)
    }
}

/// Removing a session lowers the count of its address by one.
proof fn lemma_counts_removed(c: Map<IpAddr, usize>, t: Map<u64, RelaySession>, k: u64)
    requires
        counts_match(c, t),
        t.dom().finite(),
        t.contains_key(k),
    ensures
        counts_match(decremented(c, t[k].client_addr.ip), t.remove(k)),
{
    let ip = t[k].client_addr.ip;
    let c2 = decremented(c, ip);
    let t2 = t.remove(k);
    assert(tracked_ips(t).contains(ip));
    assert(c.contains_key(ip));
    assert forall|x: IpAddr| sessions_from(t, x) == sessions_from(t2, x) + (if x == ip {
        1int
    } else {
        0int
    }) by {
        lemma_map_sum_remove(t, k, from_ip(x));
    }
    assert forall|x: IpAddr| tracked_ips(t2).contains(x) <==> sessions_from(t2, x) > 0 by {
        lemma_tracked(t2, x);
    }
    assert forall|x: IpAddr| tracked_ips(t).contains(x) <==> sessions_from(t, x) > 0 by {
        lemma_tracked(t, x);
    }
    assert(sessions_from(t, ip) == sessions_from(t2, ip) + 1);
    lemma_map_sum_bound(t2, from_ip(ip));
    assert forall|x: IpAddr| c2.dom().contains(x) <==> tracked_ips(t2).contains(x) by {
        assert(sessions_from(t, x) == sessions_from(t2, x) + (if x == ip {
            1int
        } else {
            0int
        }));
        assert(c.dom().contains(x) <==> tracked_ips(t).contains(x));
    }
    assert(c2.dom() =~= tracked_ips(t2));
    assert forall|x: IpAddr| #[trigger] c2.contains_key(x) implies c2[x] == sessions_from(
        t2,
        x,
    ) by {
        assert(c.contains_key(x));
        assert(sessions_from(t, x) == sessions_from(t2, x) + (if x == ip {
            1int
        } else {
            0int
        }));
    }
}

/// An address is tracked exactly when it has a session.
proof fn lemma_tracked(t: Map<u64, RelaySession>, ip: IpAddr)
    requires
        t.dom().finite(),
    ensures
        tracked_ips(t).contains(ip) <==> sessions_from(t, ip) > 0,
{
    lemma_map_sum_bound(t, from_ip(ip));
    if tracked_ips(t).contains(ip) {
        let k: u64 = choose|k: u64| #[trigger] t.contains_key(k) && t[k].client_addr.ip == ip;
        assert(from_ip(ip)(t[k]) == 1);
    }
    if sessions_from(t, ip) > 0 {
        let k: u64 = lemma_map_sum_positive(t, from_ip(ip));
        assert(t.contains_key(k));
    }
}

/// A new session raises the count of its address by one.
proof fn lemma_counts_added(c: Map<IpAddr, usize>, t: Map<u64, RelaySession>, k: u64, s: RelaySession, n: usize)
    requires
        counts_match(c, t),
        t.dom().finite(),
        !t.contains_key(k),
        n == (if c.contains_key(s.client_addr.ip) {
            c[s.client_addr.ip] + 1
        } else {
            1
        }),
    ensures
        counts_match(c.insert(s.client_addr.ip, n), t.insert(k, s)),
{
    let ip = s.client_addr.ip;
    let t2 = t.insert(k, s);
    let c2 = c.insert(ip, n);
    assert forall|x: IpAddr| sessions_from(t2, x) == sessions_from(t, x) + (if x == ip {
        1int
    } else {
        0int
    }) by {
        lemma_map_sum_insert(t, k, s, from_ip(x));
    }
    assert forall|x: IpAddr| tracked_ips(t).contains(x) <==> sessions_from(t, x) > 0 by {
        lemma_tracked(t, x);
    }
    assert forall|x: IpAddr| tracked_ips(t2).contains(x) <==> sessions_from(t2, x) > 0 by {
        lemma_tracked(t2, x);
    }
    lemma_map_sum_bound(t, from_ip(ip));
    assert forall|x: IpAddr| c2.dom().contains(x) <==> tracked_ips(t2).contains(x) by {
        assert(sessions_from(t2, x) == sessions_from(t, x) + (if x == ip {
            1int
        } else {
            0int
        }));
        assert(c.dom().contains(x) <==> tracked_ips(t).contains(x));
    }
    assert(c2.dom() =~= tracked_ips(t2));
    assert forall|x: IpAddr| #[trigger] c2.contains_key(x) implies c2[x] == sessions_from(
        t2,
        x,
    ) by {
        assert(sessions_from(t2, x) == sessions_from(t, x) + (if x == ip {
            1int
        } else {
            0int
        }));
        if x == ip {
            assert(c.dom().contains(x) <==> tracked_ips(t).contains(x));
        } else {
            assert(c.contains_key(x));
        }
    }
}

/// Changing a session that stays at its address leaves the counts right.
proof fn lemma_counts_updated(c: Map<IpAddr, usize>, t: Map<u64, RelaySession>, k: u64, s: RelaySession)
    requires
        counts_match(c, t),
        t.dom().finite(),
        t.contains_key(k),
        s.client_addr == t[k].client_addr,
    ensures
        counts_match(c, t.insert(k, s)),
        forall|ip: IpAddr| #[trigger] sessions_from(t.insert(k, s), ip) == sessions_from(t, ip),
{
    let t2 = t.insert(k, s);
    assert forall|x: IpAddr| #[trigger] sessions_from(t2, x) == sessions_from(t, x) by {
        lemma_map_sum_update(t, k, s, from_ip(x));
    }
    assert forall|x: IpAddr| tracked_ips(t2).contains(x) <==> tracked_ips(t).contains(x) by {
        lemma_tracked(t, x);
        lemma_tracked(t2, x);
        assert(sessions_from(t2, x) == sessions_from(t, x));
    }
    assert(tracked_ips(t2) =~= tracked_ips(t));
}

/// Takes one session of `ip` off the counts.
fn decrement(counts: &mut IpMap<usize>, ip: &IpAddr)
    ensures
        final(counts)@ == decremented(old(counts)@, *ip),
{
    let n: usize = match counts.get(ip) {
        Some(n) => *n,
        None => {
            return ;
        },
    };
    if n <= 1 {
        counts.remove(ip);
    } else {
        counts.insert(*ip, n - 1);
    }
}

/// Result of client packet processing in the relay session manager.
#[derive(Debug, Clone, Copy, PartialEq, Eq, Structural)]
pub enum ClientPacketProcessResult {
    /// Packet is authorized and should be forwarded.
    Forward {
        /// Whether this packet created a new session mapping.
        is_new: bool,
    },
    /// Packet was rejected because session creation/update was denied.
    SessionRejected,
    /// Packet was rejected because source address does not match session binding.
    RoamingBlocked,
    /// Packet was rejected by per-session rate limiting.
    RateLimited,
}

/// Whether a session may be created, and the table afterwards. A known identifier changes
/// nothing. At capacity the expired sessions go first. Then the number of sessions, the number of
/// tracked addresses and the number of sessions of this address must all be under their limits.
pub open spec fn creation(
    t: Map<u64, RelaySession>,
    l: SessionLimits,
    session_id: SessionId,
    client_addr: SocketAddr,
    now_ns: u128,
) -> (bool, Map<u64, RelaySession>) {
    if t.contains_key(session_id.0) {
        (false, t)
    } else {
        let t2 = if t.dom().len() >= l.max_sessions {
            live_sessions(t, l.timeout_ms(), ms_of(now_ns))
        } else {
            t
        };
        let ips = tracked_ips(t2);
        if t2.dom().len() >= l.max_sessions || (!ips.contains(client_addr.ip) && ips.len()
            >= l.max_tracked_ips) || sessions_from(t2, client_addr.ip) >= l.max_sessions_per_ip {
            (false, t2)
        } else {
            (
                true,
                t2.insert(
                    session_id.0,
                    RelaySession::fresh(
                        session_id,
                        client_addr,
                        l.rate_limit_pps,
                        l.rate_limit_bps,
                        l.clock,
                        now_ns,
                    ),
                ),
            )
        }
    }
}

/// As [`creation`], but the reserved identifier zero is always refused.
pub open spec fn binding(
    t: Map<u64, RelaySession>,
    l: SessionLimits,
    session_id: SessionId,
    client_addr: SocketAddr,
    now_ns: u128,
) -> (bool, Map<u64, RelaySession>) {
    if session_id.0 == 0 {
        (false, t)
    } else {
        creation(t, l, session_id, client_addr, now_ns)
    }
}

/// The answer to a client packet, and the table afterwards.
pub open spec fn client_packet(
    t: Map<u64, RelaySession>,
    l: SessionLimits,
    session_id: SessionId,
    client_addr: SocketAddr,
    bytes: usize,
    now_ns: u128,
) -> (ClientPacketProcessResult, Map<u64, RelaySession>) {
    let k = session_id.0;
    if k == 0 || !t.contains_key(k) {
        (ClientPacketProcessResult::SessionRejected, t)
    } else if t[k].client_addr != client_addr {
        (ClientPacketProcessResult::RoamingBlocked, t)
    } else if l.limited() && !t[k].client_rate_limiter.allows(bytes, us_of(now_ns)) {
        (ClientPacketProcessResult::RateLimited, t.insert(k, t[k].client_checked(bytes, us_of(now_ns))))
    } else {
        let s = if l.limited() {
            t[k].client_checked(bytes, us_of(now_ns))
        } else {
            t[k]
        };
        (
            ClientPacketProcessResult::Forward { is_new: false },
            t.insert(k, s.sent(bytes).touched(ms_of(now_ns))),
        )
    }
}

/// The client address for an upstream packet, and the table afterwards.
pub open spec fn upstream_packet(
    t: Map<u64, RelaySession>,
    session_id: SessionId,
    bytes: usize,
    now_ns: u128,
) -> (Option<SocketAddr>, Map<u64, RelaySession>) {
    let k = session_id.0;
    if t.contains_key(k) {
        (
            Some(t[k].client_addr),
            t.insert(k, t[k].received(bytes).touched(ms_of(now_ns))),
        )
    } else {
        (None, t)
    }
}

/// Whether the client limiter lets a packet pass, and the table afterwards.
pub open spec fn client_check(
    t: Map<u64, RelaySession>,
    session_id: SessionId,
    bytes: usize,
    now_ns: u128,
) -> (bool, Map<u64, RelaySession>) {
    let k = session_id.0;
    if t.contains_key(k) {
        (
            t[k].client_rate_limiter.allows(bytes, us_of(now_ns)),
            t.insert(k, t[k].client_checked(bytes, us_of(now_ns))),
        )
    } else {
        (false, t)
    }
}

/// Whether the upstream limiter lets a packet pass, and the table afterwards.
pub open spec fn upstream_check(
    t: Map<u64, RelaySession>,
    session_id: SessionId,
    bytes: usize,
    now_ns: u128,
) -> (bool, Map<u64, RelaySession>) {
    let k = session_id.0;
    if t.contains_key(k) {
        (
            t[k].upstream_rate_limiter.allows(bytes, us_of(now_ns)),
            t.insert(k, t[k].upstream_checked(bytes, us_of(now_ns))),
        )
    } else {
        (false, t)
    }
}

/// After `bytes` were counted as sent on a session; an unknown one is ignored.
pub open spec fn sent_on(t: Map<u64, RelaySession>, session_id: SessionId, bytes: usize) -> Map<
    u64,
    RelaySession,
> {
    if t.contains_key(session_id.0) {
        t.insert(session_id.0, t[session_id.0].sent(bytes))
    } else {
        t
    }
}

/// After `bytes` were counted as received on a session; an unknown one is ignored.
pub open spec fn received_on(t: Map<u64, RelaySession>, session_id: SessionId, bytes: usize) -> Map<
    u64,
    RelaySession,
> {
    if t.contains_key(session_id.0) {
        t.insert(session_id.0, t[session_id.0].received(bytes))
    } else {
        t
    }
}

/// After a session was active at `now_ms`; an unknown one is ignored.
pub open spec fn touched_on(t: Map<u64, RelaySession>, session_id: SessionId, now_ms: u64) -> Map<
    u64,
    RelaySession,
> {
    if t.contains_key(session_id.0) {
        t.insert(session_id.0, t[session_id.0].touched(now_ms))
    } else {
        t
    }
}

/// Every element is the snapshot of a session of the table at `now_ns`.
pub open spec fn snapshots_of(
    v: Seq<SessionStats>,
    t: Map<u64, RelaySession>,
    now_ns: u128,
) -> bool {
    forall|i: int|
        0 <= i < v.len() ==> t.contains_key((#[trigger] v[i]).session_id.0) && v[i]
            == t[v[i].session_id.0].snapshot(now_ns)
}

/// A session under its own identifier with the configured rates, its buckets within two seconds'
/// worth.
pub open spec fn session_ok(s: RelaySession, k: u64, l: SessionLimits) -> bool {
    &&& s.session_id.0 == k
    &&& s.client_rate_limiter.max_pps == l.rate_limit_pps
    &&& s.client_rate_limiter.max_bps == l.rate_limit_bps
    &&& s.client_rate_limiter.within_burst()
    &&& s.upstream_rate_limiter.max_pps == l.rate_limit_pps
    &&& s.upstream_rate_limiter.max_bps == l.rate_limit_bps
    &&& s.upstream_rate_limiter.within_burst()
}

/// A table within its limits.
pub open spec fn table_ok(t: Map<u64, RelaySession>, l: SessionLimits) -> bool {
    &&& t.dom().finite()
    &&& t.dom().len() <= l.max_sessions
    &&& forall|k: u64| #[trigger] t.contains_key(k) ==> session_ok(t[k], k, l)
    &&& forall|ip: IpAddr| #[trigger] sessions_from(t, ip) <= l.max_sessions_per_ip
}

/// Two states of one session.
spec fn same_identity(a: RelaySession, b: RelaySession) -> bool {
    &&& a.session_id == b.session_id
    &&& a.client_addr == b.client_addr
    &&& a.client_rate_limiter.max_pps == b.client_rate_limiter.max_pps
    &&& a.client_rate_limiter.max_bps == b.client_rate_limiter.max_bps
    &&& a.client_rate_limiter.within_burst()
    &&& a.upstream_rate_limiter.max_pps == b.upstream_rate_limiter.max_pps
    &&& a.upstream_rate_limiter.max_bps == b.upstream_rate_limiter.max_bps
    &&& a.upstream_rate_limiter.within_burst()
}

proof fn lemma_table_removed(t: Map<u64, RelaySession>, l: SessionLimits, k: u64)
    requires
        table_ok(t, l),
        t.contains_key(k),
    ensures
        table_ok(t.remove(k), l),
{
    let t2 = t.remove(k);
    assert forall|j: u64| #[trigger] t2.contains_key(j) implies session_ok(t2[j], j, l) by {
        assert(t.contains_key(j));
    }
    assert forall|ip: IpAddr| #[trigger] sessions_from(t2, ip) <= l.max_sessions_per_ip by {
        lemma_map_sum_remove(t, k, from_ip(ip));
        assert(sessions_from(t, ip) <= l.max_sessions_per_ip);
    }
}

proof fn lemma_table_added(t: Map<u64, RelaySession>, l: SessionLimits, k: u64, s: RelaySession)
    requires
        table_ok(t, l),
        !t.contains_key(k),
        session_ok(s, k, l),
        t.dom().len() < l.max_sessions,
        sessions_from(t, s.client_addr.ip) < l.max_sessions_per_ip,
    ensures
        table_ok(t.insert(k, s), l),
{
    let t2 = t.insert(k, s);
    assert forall|j: u64| #[trigger] t2.contains_key(j) implies session_ok(t2[j], j, l) by {
        assert(j != k ==> t.contains_key(j));
    }
    assert forall|ip: IpAddr| #[trigger] sessions_from(t2, ip) <= l.max_sessions_per_ip by {
        lemma_map_sum_insert(t, k, s, from_ip(ip));
        assert(sessions_from(t, ip) <= l.max_sessions_per_ip);
    }
}

proof fn lemma_table_updated(t: Map<u64, RelaySession>, l: SessionLimits, k: u64, s: RelaySession)
    requires
        table_ok(t, l),
        t.contains_key(k),
        same_identity(s, t[k]),
    ensures
        table_ok(t.insert(k, s), l),
{
    let t2 = t.insert(k, s);
    assert(t2.dom() =~= t.dom());
    assert forall|j: u64| #[trigger] t2.contains_key(j) implies session_ok(t2[j], j, l) by {
        assert(t.contains_key(j));
        assert(session_ok(t[j], j, l));
    }
    assert forall|ip: IpAddr| #[trigger] sessions_from(t2, ip) <= l.max_sessions_per_ip by {
        lemma_map_sum_update(t, k, s, from_ip(ip));
        assert(sessions_from(t, ip) <= l.max_sessions_per_ip);
    }
}

/// Relay session manager.
pub struct SessionManager {
    /// Active sessions indexed by session ID.
    sessions: HashMap<u64, RelaySession>,
    /// Per-IP session counts.
    ip_session_counts: IpMap<usize>,
    /// The settings.
    limits: SessionLimits,
}

impl SessionManager {
    /// The sessions by identifier.
    pub closed spec fn table(self) -> Map<u64, RelaySession> {
        self.sessions@
    }

    /// The settings.
    pub closed spec fn settings(self) -> SessionLimits {
        self.limits
    }

    /// The table is finite, keyed by the sessions' own identifiers and within its limits, every
    /// session carries the configured rates, and the per-address counts agree with it.
    pub closed spec fn wf(self) -> bool {
        &&& table_ok(self.table(), self.settings())
        &&& counts_match(self.ip_session_counts@, self.table())
    }

    /// Whatever a manager did, its table keeps to its limits.
    pub proof fn law_limits_always_hold(self)
        requires
            self.wf(),
        ensures
            table_ok(self.table(), self.settings()),
    {
    }

    /// Create a new session manager.
    pub fn new(timeout: Duration, max_sessions: usize) -> (m: SessionManager)
        ensures
            m.wf(),
            m.table() == Map::<u64, RelaySession>::empty(),
            m.settings().clock.started(),
            m.settings() == (SessionLimits {
                timeout,
                max_sessions,
                max_sessions_per_ip: DEFAULT_MAX_SESSIONS_PER_IP,
                max_tracked_ips: DEFAULT_MAX_TRACKED_IPS,
                rate_limit_pps: 0,
                rate_limit_bps: 0,
                clock: m.settings().clock,
            }),
    {
        Self::with_rate_limits(timeout, max_sessions, 0, 0)
    }

    /// Create a new session manager with rate limits.
    pub fn with_rate_limits(
        timeout: Duration,
        max_sessions: usize,
        rate_limit_pps: u32,
        rate_limit_bps: u64,
    ) -> (m: SessionManager)
        ensures
            m.wf(),
            m.table() == Map::<u64, RelaySession>::empty(),
            m.settings().clock.started(),
            m.settings() == (SessionLimits {
                timeout,
                max_sessions,
                max_sessions_per_ip: DEFAULT_MAX_SESSIONS_PER_IP,
                max_tracked_ips: DEFAULT_MAX_TRACKED_IPS,
                rate_limit_pps,
                rate_limit_bps,
                clock: m.settings().clock,
            }),
    {
        let m = SessionManager {
            sessions: HashMap::new(),
            ip_session_counts: IpMap::new(),
            limits: SessionLimits {
                timeout,
                max_sessions,
                max_sessions_per_ip: DEFAULT_MAX_SESSIONS_PER_IP,
                max_tracked_ips: DEFAULT_MAX_TRACKED_IPS,
                rate_limit_pps,
                rate_limit_bps,
                clock: Clock::start(),
            },
        };
        proof {
            let t = m.table();
            assert forall|ip: IpAddr| #[trigger] sessions_from(t, ip) == 0 by {
                lemma_map_sum_zero(t, from_ip(ip));
            }
            assert(m.ip_session_counts@.dom() =~= tracked_ips(t));
        }
        m
    }

    /// The clock of every time in the table.
    pub fn clock(&self) -> (c: Clock)
        ensures
            c == self.settings().clock,
    {
        self.limits.clock
    }

    /// Microseconds on the clock of the table.
    pub fn now_ns(&self) -> (now: u128)
        ensures
            self.settings().clock.reads_ns(now),
    {
        self.limits.clock.now_ns()
    }

    /// Changes how many addresses may be tracked. Addresses that are tracked already stay.
    pub fn set_max_tracked_ips(&mut self, max_tracked_ips: usize)
        requires
            old(self).wf(),
        ensures
            final(self).wf(),
            final(self).table() == old(self).table(),
            final(self).settings() == (SessionLimits { max_tracked_ips, ..old(self).settings() }),
    {
        self.limits.max_tracked_ips = max_tracked_ips;
    }

    /// Cleanup the sessions that have expired at `now_ns`; returns how many there were.
    pub fn cleanup_expired_at(&mut self, now_ns: u128) -> (removed: usize)
        requires
            old(self).wf(),
        ensures
            final(self).wf(),
            final(self).settings() == old(self).settings(),
            final(self).table() == live_sessions(
                old(self).table(),
                old(self).settings().timeout_ms(),
                ms_of(now_ns),
            ),
            removed == old(self).table().dom().len() - final(self).table().dom().len(),
    {
        let now_ms: u64 = ms_of(now_ns);
        let before: usize = self.sessions.len();
        let ghost t0 = self.table();
        let ghost l = self.settings();
        let ids = keys_of(&self.sessions);
        let mut i: usize = 0;
        while i < ids.len()
            invariant
                i <= ids@.len(),
                self.wf(),
                self.settings() == l,
                ids@.no_duplicates(),
                now_ms == ms_of(now_ns),
                t0.dom().finite(),
                forall|k: u64| t0.contains_key(k) <==> #[trigger] ids@.contains(k),
                forall|k: u64| #[trigger]
                    self.table().contains_key(k) ==> t0.contains_key(k) && self.table()[k] == t0[k],
                forall|j: int|
                    i <= j < ids@.len() ==> self.table().contains_key(#[trigger] ids@[j]),
                forall|j: int|
                    0 <= j < i ==> (self.table().contains_key(#[trigger] ids@[j])
                        <==> !t0[ids@[j]].expired(l.timeout_ms(), now_ms)),
            decreases ids@.len() - i,
        {
            let id: u64 = ids[i];
            let found = self.sessions.get(&id);
            if let Some(s) = found {
                let addr = s.client_addr;
                if s.is_expired_at(self.limits.timeout, now_ms) {
                    let ghost t = self.table();
                    let ghost c = self.ip_session_counts@;
                    self.sessions.remove(&id);
                    decrement(&mut self.ip_session_counts, &addr.ip);
                    proof {
                        lemma_counts_removed(c, t, id);
                        lemma_table_removed(t, l, id);
                        assert(self.table() == t.remove(id));
                    }
                }
            }
            i += 1;
        }
        proof {
            let live = live_sessions(t0, l.timeout_ms(), now_ms);
            assert forall|k: u64| self.table().contains_key(k) <==> live.contains_key(k) by {
                if t0.contains_key(k) || self.table().contains_key(k) {
                    assert(t0.contains_key(k));
                    assert(ids@.contains(k));
                    let j: int = choose|j: int| 0 <= j < ids@.len() && ids@[j] == k;
                    assert(self.table().contains_key(ids@[j]) <==> !t0[ids@[j]].expired(
                        l.timeout_ms(),
                        now_ms,
                    ));
                }
            }
            assert(self.table().dom() =~= live.dom());
            assert forall|k: u64| #[trigger] self.table().contains_key(k) implies self.table()[k]
                == live[k] by {
                assert(live.contains_key(k));
            }
            assert(self.table() =~= live);
            vstd::set_lib::lemma_len_subset(self.table().dom(), t0.dom());
        }
        before - self.sessions.len()
    }

    /// Cleanup expired sessions; returns how many there were.
    pub fn cleanup_expired(&mut self) -> (removed: usize)
        requires
            old(self).wf(),
        ensures
            final(self).wf(),
            final(self).settings() == old(self).settings(),
            exists|now_ns: u128| #[trigger]
                old(self).settings().clock.reads_ns(now_ns) && final(self).table()
                    == live_sessions(
                    old(self).table(),
                    old(self).settings().timeout_ms(),
                    ms_of(now_ns),
                ),
            removed == old(self).table().dom().len() - final(self).table().dom().len(),
    {
        let now: u128 = self.limits.clock.now_ns();
        self.cleanup_expired_at(now)
    }

    /// Get or create a session at `now_ns` for the given session ID and client address.
    ///
    /// Returns true if this is a new session. The address of a known session never changes: the
    /// relay cannot verify that a new address belongs to the same client.
    pub fn get_or_create_at(
        &mut self,
        session_id: SessionId,
        client_addr: SocketAddr,
        now_ns: u128,
    ) -> (created: bool)
        requires
            old(self).wf(),
        ensures
            final(self).wf(),
            final(self).settings() == old(self).settings(),
            (created, final(self).table()) == creation(
                old(self).table(),
                old(self).settings(),
                session_id,
                client_addr,
                now_ns,
            ),
    {
        if self.sessions.contains_key(&session_id.0) {
            return false;
        }
        let cap: usize = self.limits.max_sessions;
        if self.sessions.len() >= cap {
            self.cleanup_expired_at(now_ns);
            if self.sessions.len() >= cap {
                return false;
            }
        }
        let ghost t = self.table();
        let ghost c = self.ip_session_counts@;
        let ip = client_addr.ip;
        proof {
            lemma_tracked(t, ip);
            assert(c.dom().contains(ip) <==> tracked_ips(t).contains(ip));
            lemma_map_sum_bound(t, from_ip(ip));
        }
        let full = self.ip_session_counts.has_at_least(self.limits.max_tracked_ips);
        let n: usize = match self.ip_session_counts.get(&ip) {
            Some(n) => *n,
            None => {
                if full {
                    return false;
                }
                0
            },
        };
        assert(n == sessions_from(t, ip));
        if n >= self.limits.max_sessions_per_ip {
            return false;
        }
        self.ip_session_counts.insert(ip, n + 1);
        let session = RelaySession::with_rate_limit_at(
            session_id,
            client_addr,
            self.limits.rate_limit_pps,
            self.limits.rate_limit_bps,
            self.limits.clock,
            now_ns,
        );
        self.sessions.insert(session_id.0, session);
        proof {
            lemma_counts_added(c, t, session_id.0, session, (n + 1) as usize);
            lemma_table_added(t, self.settings(), session_id.0, session);
        }
        true
    }

    /// Get or create a session for the given session ID and client address.
    ///
    /// Production code goes through [`Self::bind_established`]: this offers no protection of the
    /// reserved identifier on its own.
    pub fn get_or_create(&mut self, session_id: SessionId, client_addr: SocketAddr) -> (created: bool)
        requires
            old(self).wf(),
        ensures
            final(self).wf(),
            final(self).settings() == old(self).settings(),
            exists|now_ns: u128|
                old(self).settings().clock.reads_ns(now_ns) && (created, final(self).table()) == #[trigger] creation(
                    old(self).table(),
                    old(self).settings(),
                    session_id,
                    client_addr,
                    now_ns,
                ),
    {
        let now: u128 = self.limits.clock.now_ns();
        self.get_or_create_at(session_id, client_addr, now)
    }

    /// Bind at `now_ns` a session ID confirmed by an upstream handshake response to the
    /// originating client address. No other path creates sessions.
    pub fn bind_established_at(
        &mut self,
        session_id: SessionId,
        client_addr: SocketAddr,
        now_ns: u128,
    ) -> (bound: bool)
        requires
            old(self).wf(),
        ensures
            final(self).wf(),
            final(self).settings() == old(self).settings(),
            (bound, final(self).table()) == binding(
                old(self).table(),
                old(self).settings(),
                session_id,
                client_addr,
                now_ns,
            ),
    {
        if session_id == SessionId(0) {
            return false;
        }
        self.get_or_create_at(session_id, client_addr, now_ns)
    }

    /// Bind a session ID confirmed by an upstream handshake response to the originating client
    /// address.
    pub fn bind_established(&mut self, session_id: SessionId, client_addr: SocketAddr) -> (bound: bool)
        requires
            old(self).wf(),
        ensures
            final(self).wf(),
            final(self).settings() == old(self).settings(),
            exists|now_ns: u128|
                old(self).settings().clock.reads_ns(now_ns) && (bound, final(self).table()) == #[trigger] binding(
                    old(self).table(),
                    old(self).settings(),
                    session_id,
                    client_addr,
                    now_ns,
                ),
    {
        let now: u128 = self.limits.clock.now_ns();
        self.bind_established_at(session_id, client_addr, now)
    }

    /// Stores a changed session that stays at its address.
    fn store(&mut self, id: u64, s: RelaySession)
        requires
            old(self).wf(),
            old(self).table().contains_key(id),
            same_identity(s, old(self).table()[id]),
        ensures
            final(self).wf(),
            final(self).settings() == old(self).settings(),
            final(self).table() == old(self).table().insert(id, s),
    {
        let ghost t = self.table();
        let ghost c = self.ip_session_counts@;
        self.sessions.insert(id, s);
        proof {
            lemma_counts_updated(c, t, id, s);
            lemma_table_updated(t, self.settings(), id, s);
        }
    }

    /// Process a client packet at `now_ns`: session authorization, rate limiting, and
    /// stats/activity updates. Unknown session IDs are rejected, never created.
    pub fn process_client_packet_at(
        &mut self,
        session_id: SessionId,
        client_addr: SocketAddr,
        bytes: usize,
        now_ns: u128,
    ) -> (r: ClientPacketProcessResult)
        requires
            old(self).wf(),
            bursts_fit(old(self).table(), old(self).settings()),
        ensures
            final(self).wf(),
            final(self).settings() == old(self).settings(),
            (r, final(self).table()) == client_packet(
                old(self).table(),
                old(self).settings(),
                session_id,
                client_addr,
                bytes,
                now_ns,
            ),
    {
        if session_id == SessionId(0) {
            return ClientPacketProcessResult::SessionRejected;
        }
        let mut session = match self.sessions.get(&session_id.0) {
            Some(s) => *s,
            None => {
                return ClientPacketProcessResult::SessionRejected;
            },
        };
        if session.client_addr != client_addr {
            return ClientPacketProcessResult::RoamingBlocked;
        }
        if self.limits.rate_limit_pps > 0 || self.limits.rate_limit_bps > 0 {
            if !session.check_rate_limit_at(bytes, us_of(now_ns)) {
                self.store(session_id.0, session);
                return ClientPacketProcessResult::RateLimited;
            }
        }
        session.record_sent(bytes);
        session.touch_at(ms_of(now_ns));
        self.store(session_id.0, session);
        ClientPacketProcessResult::Forward { is_new: false }
    }

    /// Process a client packet: session authorization, rate limiting, and stats/activity updates.
    pub fn process_client_packet(
        &mut self,
        session_id: SessionId,
        client_addr: SocketAddr,
        bytes: usize,
    ) -> (r: ClientPacketProcessResult)
        requires
            old(self).wf(),
            bursts_fit(old(self).table(), old(self).settings()),
        ensures
            final(self).wf(),
            final(self).settings() == old(self).settings(),
            exists|now_ns: u128|
                old(self).settings().clock.reads_ns(now_ns) && (r, final(self).table()) == #[trigger] client_packet(
                    old(self).table(),
                    old(self).settings(),
                    session_id,
                    client_addr,
                    bytes,
                    now_ns,
                ),
    {
        let now: u128 = self.limits.clock.now_ns();
        self.process_client_packet_at(session_id, client_addr, bytes, now)
    }

    /// Process an upstream packet at `now_ns`: get client addr, record bytes, and touch.
    pub fn process_upstream_packet_at(
        &mut self,
        session_id: SessionId,
        bytes: usize,
        now_ns: u128,
    ) -> (r: Option<SocketAddr>)
        requires
            old(self).wf(),
        ensures
            final(self).wf(),
            final(self).settings() == old(self).settings(),
            (r, final(self).table()) == upstream_packet(
                old(self).table(),
                session_id,
                bytes,
                now_ns,
            ),
    {
        let mut session = match self.sessions.get(&session_id.0) {
            Some(s) => *s,
            None => {
                return None;
            },
        };
        session.record_received(bytes);
        session.touch_at(ms_of(now_ns));
        let addr = session.client_addr;
        self.store(session_id.0, session);
        Some(addr)
    }

    /// Process an upstream packet: get client addr, record bytes, and touch.
    pub fn process_upstream_packet(&mut self, session_id: SessionId, bytes: usize) -> (r: Option<
        SocketAddr,
    >)
        requires
            old(self).wf(),
        ensures
            final(self).wf(),
            final(self).settings() == old(self).settings(),
            exists|now_ns: u128|
                old(self).settings().clock.reads_ns(now_ns) && (r, final(self).table()) == #[trigger] upstream_packet(
                    old(self).table(),
                    session_id,
                    bytes,
                    now_ns,
                ),
    {
        let now: u128 = self.limits.clock.now_ns();
        self.process_upstream_packet_at(session_id, bytes, now)
    }

    /// Remove a session and decrement the per-IP session counter.
    pub fn remove(&mut self, session_id: SessionId) -> (r: Option<RelaySession>)
        requires
            old(self).wf(),
        ensures
            final(self).wf(),
            final(self).settings() == old(self).settings(),
            final(self).table() == old(self).table().remove(session_id.0),
            r == (if old(self).table().contains_key(session_id.0) {
                Some(old(self).table()[session_id.0])
            } else {
                None
            }),
    {
        let ghost t = self.table();
        let ghost c = self.ip_session_counts@;
        let removed = self.sessions.remove(&session_id.0);
        match removed {
            Some(s) => {
                decrement(&mut self.ip_session_counts, &s.client_addr.ip);
                proof {
                    lemma_counts_removed(c, t, session_id.0);
                    lemma_table_removed(t, self.settings(), session_id.0);
                }
                Some(s)
            },
            None => {
                assert(t.remove(session_id.0) =~= t);
                None
            },
        }
    }

    /// Check at `now_ns` if an upstream -> client packet is allowed by rate limits. An unknown
    /// session is refused.
    pub fn check_upstream_rate_limit_at(
        &mut self,
        session_id: SessionId,
        bytes: usize,
        now_ns: u128,
    ) -> (allowed: bool)
        requires
            old(self).wf(),
            bursts_fit(old(self).table(), old(self).settings()),
        ensures
            final(self).wf(),
            final(self).settings() == old(self).settings(),
            (allowed, final(self).table()) == upstream_check(
                old(self).table(),
                session_id,
                bytes,
                now_ns,
            ),
    {
        let mut session = match self.sessions.get(&session_id.0) {
            Some(s) => *s,
            None => {
                return false;
            },
        };
        let allowed = session.check_upstream_rate_limit_at(bytes, us_of(now_ns));
        self.store(session_id.0, session);
        allowed
    }

    /// Check if an upstream -> client packet is allowed by rate limits.
    ///
    /// Returns true if the packet is allowed, false if rate limited.
    pub fn check_upstream_rate_limit(&mut self, session_id: SessionId, bytes: usize) -> (allowed:
        bool)
        requires
            old(self).wf(),
            bursts_fit(old(self).table(), old(self).settings()),
        ensures
            final(self).wf(),
            final(self).settings() == old(self).settings(),
            exists|now_ns: u128|
                old(self).settings().clock.reads_ns(now_ns) && (allowed, final(self).table()) == #[trigger] upstream_check(
                    old(self).table(),
                    session_id,
                    bytes,
                    now_ns,
                ),
    {
        let now: u128 = self.limits.clock.now_ns();
        self.check_upstream_rate_limit_at(session_id, bytes, now)
    }

    /// Check at `now_ns` if a client -> upstream packet is allowed by rate limits. An unknown
    /// session is refused.
    pub fn check_rate_limit_at(&mut self, session_id: SessionId, bytes: usize, now_ns: u128) -> (allowed:
        bool)
        requires
            old(self).wf(),
            bursts_fit(old(self).table(), old(self).settings()),
        ensures
            final(self).wf(),
            final(self).settings() == old(self).settings(),
            (allowed, final(self).table()) == client_check(
                old(self).table(),
                session_id,
                bytes,
                now_ns,
            ),
    {
        let mut session = match self.sessions.get(&session_id.0) {
            Some(s) => *s,
            None => {
                return false;
            },
        };
        let allowed = session.check_rate_limit_at(bytes, us_of(now_ns));
        self.store(session_id.0, session);
        allowed
    }

    /// Check if a client -> upstream packet is allowed by rate limits.
    pub fn check_rate_limit(&mut self, session_id: SessionId, bytes: usize) -> (allowed: bool)
        requires
            old(self).wf(),
            bursts_fit(old(self).table(), old(self).settings()),
        ensures
            final(self).wf(),
            final(self).settings() == old(self).settings(),
            exists|now_ns: u128|
                old(self).settings().clock.reads_ns(now_ns) && (allowed, final(self).table()) == #[trigger] client_check(
                    old(self).table(),
                    session_id,
                    bytes,
                    now_ns,
                ),
    {
        let now: u128 = self.limits.clock.now_ns();
        self.check_rate_limit_at(session_id, bytes, now)
    }

    /// Check if rate limiting is enabled.
    pub fn is_rate_limited(&self) -> (b: bool)
        ensures
            b == self.settings().limited(),
    {
        self.limits.rate_limit_pps > 0 || self.limits.rate_limit_bps > 0
    }

    /// Get current session count.
    pub fn session_count(&self) -> (n: usize)
        ensures
            n == self.table().dom().len(),
    {
        self.sessions.len()
    }

    /// Get all session statistics at `now_ns`, in no particular order.
    pub fn all_stats_at(&self, now_ns: u128) -> (v: Vec<SessionStats>)
        requires
            self.wf(),
        ensures
            v@.len() == self.table().dom().len(),
            v@.no_duplicates(),
            snapshots_of(v@, self.table(), now_ns),
    {
        let ids = keys_of(&self.sessions);
        let mut v: Vec<SessionStats> = Vec::new();
        let mut i: usize = 0;
        while i < ids.len()
            invariant
                i <= ids@.len(),
                v@.len() == i,
                self.wf(),
                ids@.no_duplicates(),
                forall|k: u64| self.table().contains_key(k) <==> #[trigger] ids@.contains(k),
                forall|j: int|
                    0 <= j < i ==> (#[trigger] v@[j]).session_id.0 == ids@[j]
                        && self.table().contains_key(ids@[j]) && v@[j]
                        == self.table()[ids@[j]].snapshot(now_ns),
            decreases ids@.len() - i,
        {
            let id: u64 = ids[i];
            assert(ids@.contains(id));
            if let Some(s) = self.sessions.get(&id) {
                v.push(s.stats_at(now_ns));
            }
            i += 1;
        }
        v
    }

    /// Get all session statistics, in no particular order.
    pub fn all_stats(&self) -> (v: Vec<SessionStats>)
        requires
            self.wf(),
        ensures
            v@.len() == self.table().dom().len(),
            v@.no_duplicates(),
            exists|now_ns: u128|
                self.settings().clock.reads_ns(now_ns) && #[trigger] snapshots_of(
                    v@,
                    self.table(),
                    now_ns,
                ),
    {
        let now: u128 = self.limits.clock.now_ns();
        self.all_stats_at(now)
    }

    /// Get aggregate statistics.
    pub fn aggregate_stats(&self) -> (stats: AggregateStats)
        requires
            self.wf(),
        ensures
            stats == totals(self.table()),
    {
        let ids = keys_of(&self.sessions);
        let mut stats = AggregateStats::default();
        stats.session_count = self.sessions.len();
        let ghost t = self.table();
        let ghost mut rest = t;
        let ghost f1 = |s: RelaySession| s.bytes_sent as int;
        let ghost f2 = |s: RelaySession| s.bytes_received as int;
        let ghost f3 = |s: RelaySession| s.packets_sent as int;
        let ghost f4 = |s: RelaySession| s.packets_received as int;
        let mut i: usize = 0;
        while i < ids.len()
            invariant
                i <= ids@.len(),
                self.wf(),
                t == self.table(),
                ids@.no_duplicates(),
                ids@.len() == t.dom().len(),
                f1 == (|s: RelaySession| s.bytes_sent as int),
                f2 == (|s: RelaySession| s.bytes_received as int),
                f3 == (|s: RelaySession| s.packets_sent as int),
                f4 == (|s: RelaySession| s.packets_received as int),
                forall|k: u64| t.contains_key(k) <==> #[trigger] ids@.contains(k),
                rest.dom().finite(),
                rest.dom().len() == ids@.len() - i,
                forall|k: u64| #[trigger]
                    rest.contains_key(k) ==> t.contains_key(k) && rest[k] == t[k],
                forall|j: int| i <= j < ids@.len() ==> rest.contains_key(#[trigger] ids@[j]),
                stats.session_count == t.dom().len(),
                stats.total_bytes_sent == word(map_sum(t, f1) - map_sum(rest, f1)),
                stats.total_bytes_received == word(map_sum(t, f2) - map_sum(rest, f2)),
                stats.total_packets_sent == word(map_sum(t, f3) - map_sum(rest, f3)),
                stats.total_packets_received == word(map_sum(t, f4) - map_sum(rest, f4)),
            decreases ids@.len() - i,
        {
            let id: u64 = ids[i];
            assert(ids@.contains(id));
            assert(rest.contains_key(id));
            if let Some(s) = self.sessions.get(&id) {
                proof {
                    lemma_map_sum_remove(rest, id, f1);
                    lemma_map_sum_remove(rest, id, f2);
                    lemma_map_sum_remove(rest, id, f3);
                    lemma_map_sum_remove(rest, id, f4);
                    rest = rest.remove(id);
                }
                stats.total_bytes_sent = stats.total_bytes_sent.wrapping_add(s.bytes_sent);
                stats.total_bytes_received = stats.total_bytes_received.wrapping_add(
                    s.bytes_received,
                );
                stats.total_packets_sent = stats.total_packets_sent.wrapping_add(s.packets_sent);
                stats.total_packets_received = stats.total_packets_received.wrapping_add(
                    s.packets_received,
                );
            }
            i += 1;
        }
        stats
    }

    /// Get the client address for a session.
    pub fn get_client_addr(&self, session_id: SessionId) -> (r: Option<SocketAddr>)
        ensures
            r == (if self.table().contains_key(session_id.0) {
                Some(self.table()[session_id.0].client_addr)
            } else {
                None
            }),
    {
        match self.sessions.get(&session_id.0) {
            Some(s) => Some(s.client_addr),
            None => None,
        }
    }

    /// Record bytes sent on a session; an unknown one is ignored.
    pub fn record_sent(&mut self, session_id: SessionId, bytes: usize)
        requires
            old(self).wf(),
        ensures
            final(self).wf(),
            final(self).settings() == old(self).settings(),
            final(self).table() == sent_on(old(self).table(), session_id, bytes),
    {
        let found = match self.sessions.get(&session_id.0) {
            Some(s) => Some(*s),
            None => None,
        };
        if let Some(mut s) = found {
            s.record_sent(bytes);
            self.store(session_id.0, s);
        }
    }

    /// Record bytes received on a session; an unknown one is ignored.
    pub fn record_received(&mut self, session_id: SessionId, bytes: usize)
        requires
            old(self).wf(),
        ensures
            final(self).wf(),
            final(self).settings() == old(self).settings(),
            final(self).table() == received_on(old(self).table(), session_id, bytes),
    {
        let found = match self.sessions.get(&session_id.0) {
            Some(s) => Some(*s),
            None => None,
        };
        if let Some(mut s) = found {
            s.record_received(bytes);
            self.store(session_id.0, s);
        }
    }

    /// Touch a session at `now_ms`; an unknown one is ignored.
    pub fn touch_at(&mut self, session_id: SessionId, now_ms: u64)
        requires
            old(self).wf(),
        ensures
            final(self).wf(),
            final(self).settings() == old(self).settings(),
            final(self).table() == touched_on(old(self).table(), session_id, now_ms),
    {
        let found = match self.sessions.get(&session_id.0) {
            Some(s) => Some(*s),
            None => None,
        };
        if let Some(mut s) = found {
            s.touch_at(now_ms);
            self.store(session_id.0, s);
        }
    }

    /// Touch session to update last activity.
    pub fn touch(&mut self, session_id: SessionId)
        requires
            old(self).wf(),
        ensures
            final(self).wf(),
            final(self).settings() == old(self).settings(),
            exists|now_ms: u64|
                old(self).settings().clock.reads_ms(now_ms) && final(self).table() == (if old(self).table().contains_key(session_id.0) {
                    old(self).table().insert(
                        session_id.0,
                        #[trigger] old(self).table()[session_id.0].touched(now_ms),
                    )
                } else {
                    old(self).table()
                }),
    {
        let now: u64 = self.limits.clock.now_ms();
        self.touch_at(session_id, now);
    }
}

} // verus!
