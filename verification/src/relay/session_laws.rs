//! What holds of the session table whatever happens to it.

use crate::model::{lemma_map_sum_insert, lemma_map_sum_zero};
use crate::net::{IpAddr, SocketAddr};
use crate::relay::rate_limiter::RateLimiter;
use crate::relay::session::{RelaySession, SessionId};
use crate::relay::session_manager::{
    ClientPacketProcessResult, SessionLimits, binding, client_check, client_packet, creation,
    from_ip, live_sessions, received_on, sent_on, sessions_from, touched_on, tracked_ips,
    upstream_check, upstream_packet,
};
use crate::relay::stats::{AggregateStats, totals};
use crate::time::{ms_of, us_of};
use vstd::prelude::*;

verus! {

/// A client packet never adds or removes a session, and never moves one to another address.
pub proof fn law_data_packets_create_no_session(
    t: Map<u64, RelaySession>,
    l: SessionLimits,
    session_id: SessionId,
    client_addr: SocketAddr,
    bytes: usize,
    now_ns: u128,
)
    ensures
        client_packet(t, l, session_id, client_addr, bytes, now_ns).1.dom() == t.dom(),
        forall|k: u64| #[trigger]
            t.contains_key(k) ==> client_packet(t, l, session_id, client_addr, bytes, now_ns).1[k].client_addr
                == t[k].client_addr,
{
    assert(client_packet(t, l, session_id, client_addr, bytes, now_ns).1.dom() =~= t.dom());
}

/// A session stays bound to the address that it was created with: a later binding of the same
/// identifier to another address is refused and changes nothing.
pub proof fn law_no_roaming(
    t: Map<u64, RelaySession>,
    l: SessionLimits,
    session_id: SessionId,
    client_addr: SocketAddr,
    now_ns: u128,
    k: u64,
)
    requires
        t.contains_key(k),
    ensures
        session_id.0 == k ==> binding(t, l, session_id, client_addr, now_ns) == (false, t),
        binding(t, l, session_id, client_addr, now_ns).1.contains_key(k) ==> binding(
            t,
            l,
            session_id,
            client_addr,
            now_ns,
        ).1[k] == t[k],
{
}

/// A packet from another address than the bound one is refused and changes nothing.
pub proof fn law_other_addresses_are_blocked(
    t: Map<u64, RelaySession>,
    l: SessionLimits,
    session_id: SessionId,
    client_addr: SocketAddr,
    bytes: usize,
    now_ns: u128,
)
    requires
        session_id.0 != 0,
        t.contains_key(session_id.0),
        t[session_id.0].client_addr != client_addr,
    ensures
        client_packet(t, l, session_id, client_addr, bytes, now_ns) == (
            ClientPacketProcessResult::RoamingBlocked,
            t,
        ),
{
}

/// The reserved identifier is never bound, and packets with it are rejected.
pub proof fn law_session_zero_is_refused(
    t: Map<u64, RelaySession>,
    l: SessionLimits,
    session_id: SessionId,
    client_addr: SocketAddr,
    bytes: usize,
    now_ns: u128,
)
    ensures
        binding(t, l, SessionId(0), client_addr, now_ns) == (false, t),
        client_packet(t, l, SessionId(0), client_addr, bytes, now_ns) == (
            ClientPacketProcessResult::SessionRejected,
            t,
        ),
        !t.contains_key(0) ==> !binding(t, l, session_id, client_addr, now_ns).1.contains_key(0),
{
}

/// Removing a session that was just bound gives back the table before it, less the sessions that
/// had expired if the table was full.
pub proof fn law_remove_undoes_binding(
    t: Map<u64, RelaySession>,
    l: SessionLimits,
    session_id: SessionId,
    client_addr: SocketAddr,
    now_ns: u128,
)
    requires
        binding(t, l, session_id, client_addr, now_ns).0,
    ensures
        binding(t, l, session_id, client_addr, now_ns).1.remove(session_id.0) == (if t.dom().len()
            >= l.max_sessions {
            live_sessions(t, l.timeout_ms(), ms_of(now_ns))
        } else {
            t
        }),
{
    let t2 = if t.dom().len() >= l.max_sessions {
        live_sessions(t, l.timeout_ms(), ms_of(now_ns))
    } else {
        t
    };
    assert(binding(t, l, session_id, client_addr, now_ns).1.remove(session_id.0) =~= t2);
}

/// Cleaning up twice at one time is cleaning up once.
pub proof fn law_cleanup_is_idempotent(t: Map<u64, RelaySession>, timeout_ms: u64, now_ms: u64)
    ensures
        live_sessions(live_sessions(t, timeout_ms, now_ms), timeout_ms, now_ms) == live_sessions(
            t,
            timeout_ms,
            now_ms,
        ),
{
    assert(live_sessions(live_sessions(t, timeout_ms, now_ms), timeout_ms, now_ms)
        =~= live_sessions(t, timeout_ms, now_ms));
}

/// Later cleanups remove at least as much.
pub proof fn law_cleanup_is_monotone(t: Map<u64, RelaySession>, timeout_ms: u64, sooner: u64, later: u64)
    requires
        sooner <= later,
    ensures
        live_sessions(t, timeout_ms, later).dom().subset_of(
            live_sessions(t, timeout_ms, sooner).dom(),
        ),
{
    assert forall|k: u64| live_sessions(t, timeout_ms, later).dom().contains(k) implies live_sessions(
        t,
        timeout_ms,
        sooner,
    ).dom().contains(k) by {}
}

/// A session that was active at `now_ms` survives a cleanup at that time.
pub proof fn law_active_sessions_survive(t: Map<u64, RelaySession>, timeout_ms: u64, now_ms: u64, k: u64)
    requires
        t.contains_key(k),
        t[k].last_activity_ms == now_ms,
    ensures
        live_sessions(t, timeout_ms, now_ms).contains_key(k),
{
}

/// The addresses of finitely many sessions are finitely many.
proof fn lemma_tracked_finite(t: Map<u64, RelaySession>)
    requires
        t.dom().finite(),
    ensures
        tracked_ips(t).finite(),
{
    let f = |k: u64| t[k].client_addr.ip;
    t.dom().lemma_map_finite(f);
    assert forall|ip: IpAddr| tracked_ips(t).contains(ip) implies t.dom().map(f).contains(ip) by {
        let k: u64 = choose|k: u64| #[trigger] t.contains_key(k) && t[k].client_addr.ip == ip;
        assert(t.dom().contains(k) && f(k) == ip);
    }
    vstd::set_lib::lemma_set_subset_finite(t.dom().map(f), tracked_ips(t));
}

/// No address that a session comes from is forgotten by a smaller table; a smaller table tracks
/// no more addresses.
proof fn lemma_tracked_smaller(small: Map<u64, RelaySession>, large: Map<u64, RelaySession>)
    requires
        large.dom().finite(),
        forall|k: u64| #[trigger]
            small.contains_key(k) ==> large.contains_key(k) && small[k] == large[k],
    ensures
        tracked_ips(small).finite(),
        tracked_ips(small).len() <= tracked_ips(large).len(),
{
    lemma_tracked_finite(large);
    assert forall|ip: IpAddr| tracked_ips(small).contains(ip) implies tracked_ips(large).contains(
        ip,
    ) by {
        let k: u64 = choose|k: u64| #[trigger] small.contains_key(k) && small[k].client_addr.ip == ip;
        assert(large.contains_key(k));
    }
    vstd::set_lib::lemma_len_subset(tracked_ips(small), tracked_ips(large));
}

/// The number of tracked addresses never grows beyond its limit.
pub proof fn law_tracked_addresses_are_capped(
    t: Map<u64, RelaySession>,
    l: SessionLimits,
    session_id: SessionId,
    client_addr: SocketAddr,
    now_ns: u128,
)
    requires
        t.dom().finite(),
        tracked_ips(t).len() <= l.max_tracked_ips,
    ensures
        tracked_ips(creation(t, l, session_id, client_addr, now_ns).1).len() <= l.max_tracked_ips,
{
    let t2 = if t.dom().len() >= l.max_sessions {
        live_sessions(t, l.timeout_ms(), ms_of(now_ns))
    } else {
        t
    };
    lemma_tracked_smaller(t2, t);
    if creation(t, l, session_id, client_addr, now_ns).0 {
        let t3 = creation(t, l, session_id, client_addr, now_ns).1;
        let s = t3[session_id.0];
        assert(s.client_addr == client_addr);
        assert forall|ip: IpAddr| tracked_ips(t3).contains(ip) implies tracked_ips(t2).insert(
            client_addr.ip,
        ).contains(ip) by {
            let k: u64 = choose|k: u64| #[trigger] t3.contains_key(k) && t3[k].client_addr.ip == ip;
            if k != session_id.0 {
                assert(t2.contains_key(k));
            }
        }
        vstd::set_lib::lemma_len_subset(tracked_ips(t3), tracked_ips(t2).insert(client_addr.ip));
        if tracked_ips(t2).contains(client_addr.ip) {
            assert(tracked_ips(t2).insert(client_addr.ip) =~= tracked_ips(t2));
        }
    }
}

/// A client that was just bound may send at once, if the packet fits the byte rate.
pub proof fn law_bound_client_may_send(
    t: Map<u64, RelaySession>,
    l: SessionLimits,
    session_id: SessionId,
    client_addr: SocketAddr,
    bytes: usize,
    now_ns: u128,
)
    requires
        binding(t, l, session_id, client_addr, now_ns).0,
        l.rate_limit_bps == 0 || bytes <= l.rate_limit_bps,
    ensures
        client_packet(
            binding(t, l, session_id, client_addr, now_ns).1,
            l,
            session_id,
            client_addr,
            bytes,
            now_ns,
        ).0 == (ClientPacketProcessResult::Forward { is_new: false }),
{
}

/// Packets from upstream reach the bound client and nobody else, and move no session.
pub proof fn law_upstream_packets_reach_the_bound_client(
    t: Map<u64, RelaySession>,
    l: SessionLimits,
    session_id: SessionId,
    client_addr: SocketAddr,
    bytes: usize,
    now_ns: u128,
    later_ns: u128,
)
    requires
        binding(t, l, session_id, client_addr, now_ns).0,
    ensures
        upstream_packet(
            binding(t, l, session_id, client_addr, now_ns).1,
            session_id,
            bytes,
            later_ns,
        ).0 == Some(client_addr),
        upstream_packet(t, session_id, bytes, later_ns).1.dom() == t.dom(),
{
    assert(upstream_packet(t, session_id, bytes, later_ns).1.dom() =~= t.dom());
}

/// A session is kept as long as it was active within the timeout, and no longer.
pub proof fn law_sessions_live_for_the_timeout(
    t: Map<u64, RelaySession>,
    timeout_ms: u64,
    now_ms: u64,
    k: u64,
)
    requires
        t.contains_key(k),
    ensures
        live_sessions(t, timeout_ms, now_ms).contains_key(k) <==> now_ms <= t[k].last_activity_ms
            + timeout_ms,
        live_sessions(t, timeout_ms, now_ms).contains_key(k) ==> live_sessions(
            t,
            timeout_ms,
            now_ms,
        )[k] == t[k],
{
}

/// A packet that is forwarded renews its session: it survives every cleanup until the timeout has
/// passed once more.
pub proof fn law_forwarded_packets_renew_their_session(
    t: Map<u64, RelaySession>,
    l: SessionLimits,
    session_id: SessionId,
    client_addr: SocketAddr,
    bytes: usize,
    now_ns: u128,
    later_ms: u64,
)
    requires
        client_packet(t, l, session_id, client_addr, bytes, now_ns).0 is Forward,
        later_ms <= ms_of(now_ns) + l.timeout_ms(),
    ensures
        client_packet(t, l, session_id, client_addr, bytes, now_ns).1[session_id.0].last_activity_ms
            == ms_of(now_ns),
        live_sessions(
            client_packet(t, l, session_id, client_addr, bytes, now_ns).1,
            l.timeout_ms(),
            later_ms,
        ).contains_key(session_id.0),
{
}

/// A packet that upstream sends to a client renews the session too.
pub proof fn law_returned_packets_renew_their_session(
    t: Map<u64, RelaySession>,
    session_id: SessionId,
    bytes: usize,
    now_ns: u128,
    timeout_ms: u64,
    later_ms: u64,
)
    requires
        upstream_packet(t, session_id, bytes, now_ns).0 is Some,
        later_ms <= ms_of(now_ns) + timeout_ms,
    ensures
        upstream_packet(t, session_id, bytes, now_ns).1[session_id.0].last_activity_ms == ms_of(
            now_ns,
        ),
        live_sessions(
            upstream_packet(t, session_id, bytes, now_ns).1,
            timeout_ms,
            later_ms,
        ).contains_key(session_id.0),
{
}

/// A session that was just bound lives until the timeout has passed.
pub proof fn law_bound_sessions_live_for_the_timeout(
    t: Map<u64, RelaySession>,
    l: SessionLimits,
    session_id: SessionId,
    client_addr: SocketAddr,
    now_ns: u128,
    later_ms: u64,
)
    requires
        binding(t, l, session_id, client_addr, now_ns).0,
        later_ms <= ms_of(now_ns) + l.timeout_ms(),
    ensures
        live_sessions(
            binding(t, l, session_id, client_addr, now_ns).1,
            l.timeout_ms(),
            later_ms,
        ).contains_key(session_id.0),
{
}

/// What a packet that does not pass leaves behind: no session is renewed by it, and nothing is
/// counted for it.
pub proof fn law_refused_packets_renew_nothing(
    t: Map<u64, RelaySession>,
    l: SessionLimits,
    session_id: SessionId,
    client_addr: SocketAddr,
    bytes: usize,
    now_ns: u128,
    k: u64,
)
    requires
        !(client_packet(t, l, session_id, client_addr, bytes, now_ns).0 is Forward),
        t.contains_key(k),
    ensures
        ({
            let s = client_packet(t, l, session_id, client_addr, bytes, now_ns).1[k];
            &&& s.last_activity_ms == t[k].last_activity_ms
            &&& s.bytes_sent == t[k].bytes_sent
            &&& s.packets_sent == t[k].packets_sent
            &&& s.bytes_received == t[k].bytes_received
            &&& s.packets_received == t[k].packets_received
            &&& s.upstream_rate_limiter == t[k].upstream_rate_limiter
        }),
{
}

/// The packets of a bound client pass, as long as its limiter allows them or there are no limits;
/// those of anybody else do not, nor those that the limiter refuses.
pub proof fn law_bound_clients_are_served(
    t: Map<u64, RelaySession>,
    l: SessionLimits,
    session_id: SessionId,
    client_addr: SocketAddr,
    bytes: usize,
    now_ns: u128,
)
    ensures
        client_packet(t, l, session_id, client_addr, bytes, now_ns).0 is Forward <==> session_id.0
            != 0 && t.contains_key(session_id.0) && t[session_id.0].client_addr == client_addr && (
        l.rate_limit_pps == 0 && l.rate_limit_bps == 0
            || t[session_id.0].client_rate_limiter.allows(bytes, us_of(now_ns))),
        client_packet(t, l, session_id, client_addr, bytes, now_ns).0 is RateLimited ==> l.rate_limit_pps
            > 0 || l.rate_limit_bps > 0,
{
}

/// A packet that is forwarded counts for its session, pays the session's client limiter where
/// there are limits, and touches nothing else of any session.
pub proof fn law_forwarded_packets_are_counted(
    t: Map<u64, RelaySession>,
    l: SessionLimits,
    session_id: SessionId,
    client_addr: SocketAddr,
    bytes: usize,
    now_ns: u128,
    k: u64,
)
    requires
        client_packet(t, l, session_id, client_addr, bytes, now_ns).0 is Forward,
        t.contains_key(k),
        t[session_id.0].bytes_sent + bytes <= u64::MAX,
        t[session_id.0].packets_sent < u64::MAX,
    ensures
        ({
            let s = t[session_id.0];
            let after = client_packet(t, l, session_id, client_addr, bytes, now_ns).1;
            let a = after[session_id.0];
            &&& a.bytes_sent == s.bytes_sent + bytes
            &&& a.packets_sent == s.packets_sent + 1
            &&& a.bytes_received == s.bytes_received
            &&& a.packets_received == s.packets_received
            &&& a.client_addr == s.client_addr
            &&& a.session_id == s.session_id
            &&& a.created_at_ns == s.created_at_ns
            &&& a.upstream_rate_limiter == s.upstream_rate_limiter
            &&& l.rate_limit_pps == 0 && l.rate_limit_bps == 0 ==> a.client_rate_limiter
                == s.client_rate_limiter
            &&& l.limited() ==> paid(
                s.client_rate_limiter,
                a.client_rate_limiter,
                bytes,
                us_of(now_ns),
            )
            &&& k != session_id.0 ==> after[k] == t[k]
        }),
{
}

/// Whether a limiter let a packet pass and was charged for it: a packet token and its bytes are
/// gone from what there was at `now_us`.
pub open spec fn paid(
    before: RateLimiter,
    after: RateLimiter,
    bytes: usize,
    now_us: u64,
) -> bool {
    &&& before.allows(bytes, now_us)
    &&& after.max_pps == before.max_pps
    &&& after.max_bps == before.max_bps
    &&& before.max_pps > 0 ==> after.packet_tokens + 1 == before.refilled(now_us).packet_tokens
    &&& before.max_bps > 0 ==> after.byte_tokens + bytes == before.refilled(now_us).byte_tokens
}

/// A packet that goes to a client counts for its session and touches nothing else of any session.
pub proof fn law_returned_packets_are_counted(
    t: Map<u64, RelaySession>,
    session_id: SessionId,
    bytes: usize,
    now_ns: u128,
    k: u64,
)
    requires
        t.contains_key(session_id.0),
        t.contains_key(k),
        t[session_id.0].bytes_received + bytes <= u64::MAX,
        t[session_id.0].packets_received < u64::MAX,
    ensures
        ({
            let s = t[session_id.0];
            let after = upstream_packet(t, session_id, bytes, now_ns).1;
            let a = after[session_id.0];
            &&& upstream_packet(t, session_id, bytes, now_ns).0 == Some(s.client_addr)
            &&& a.bytes_received == s.bytes_received + bytes
            &&& a.packets_received == s.packets_received + 1
            &&& a.bytes_sent == s.bytes_sent
            &&& a.packets_sent == s.packets_sent
            &&& a.client_addr == s.client_addr
            &&& a.session_id == s.session_id
            &&& a.created_at_ns == s.created_at_ns
            &&& a.client_rate_limiter == s.client_rate_limiter
            &&& a.upstream_rate_limiter == s.upstream_rate_limiter
            &&& k != session_id.0 ==> after[k] == t[k]
        }),
{
}

/// Checking one direction charges the limiter of that direction alone and renews nothing.
pub proof fn law_directions_are_limited_apart(
    t: Map<u64, RelaySession>,
    session_id: SessionId,
    bytes: usize,
    now_ns: u128,
    k: u64,
)
    requires
        t.contains_key(k),
    ensures
        ({
            let c = client_check(t, session_id, bytes, now_ns).1[k];
            let u = upstream_check(t, session_id, bytes, now_ns).1[k];
            &&& c.upstream_rate_limiter == t[k].upstream_rate_limiter
            &&& u.client_rate_limiter == t[k].client_rate_limiter
            &&& c.last_activity_ms == t[k].last_activity_ms
            &&& u.last_activity_ms == t[k].last_activity_ms
            &&& c.client_addr == t[k].client_addr
            &&& u.client_addr == t[k].client_addr
            &&& k != session_id.0 ==> c == t[k] && u == t[k]
        }),
        !t.contains_key(session_id.0) ==> !client_check(t, session_id, bytes, now_ns).0
            && !upstream_check(t, session_id, bytes, now_ns).0,
        t.contains_key(session_id.0) && client_check(t, session_id, bytes, now_ns).0
            && !t[session_id.0].client_rate_limiter.no_limit() ==> paid(
            t[session_id.0].client_rate_limiter,
            client_check(t, session_id, bytes, now_ns).1[session_id.0].client_rate_limiter,
            bytes,
            us_of(now_ns),
        ),
        t.contains_key(session_id.0) && upstream_check(t, session_id, bytes, now_ns).0
            && !t[session_id.0].upstream_rate_limiter.no_limit() ==> paid(
            t[session_id.0].upstream_rate_limiter,
            upstream_check(t, session_id, bytes, now_ns).1[session_id.0].upstream_rate_limiter,
            bytes,
            us_of(now_ns),
        ),
{
}

/// A new session is bound wherever there is room: for one more session, counting only those that
/// have not expired when the table is full; for one more of its address; and for its address. It
/// starts with nothing counted and a second's worth of packets and bytes in each direction.
pub proof fn law_there_is_room_for_new_sessions(
    t: Map<u64, RelaySession>,
    l: SessionLimits,
    session_id: SessionId,
    client_addr: SocketAddr,
    now_ns: u128,
)
    requires
        session_id.0 != 0,
        !t.contains_key(session_id.0),
        ({
            let kept = if t.dom().len() < l.max_sessions {
                t
            } else {
                live_sessions(t, l.timeout_ms(), ms_of(now_ns))
            };
            &&& kept.dom().len() < l.max_sessions
            &&& sessions_from(kept, client_addr.ip) < l.max_sessions_per_ip
            &&& tracked_ips(kept).contains(client_addr.ip) || tracked_ips(kept).len()
                < l.max_tracked_ips
        }),
    ensures
        binding(t, l, session_id, client_addr, now_ns).0,
        ({
            let s = binding(t, l, session_id, client_addr, now_ns).1[session_id.0];
            &&& s.session_id == session_id
            &&& s.client_addr == client_addr
            &&& s.last_activity_ms == ms_of(now_ns)
            &&& s.created_at_ns == now_ns
            &&& s.bytes_sent == 0 && s.bytes_received == 0
            &&& s.packets_sent == 0 && s.packets_received == 0
            &&& full(s.client_rate_limiter, l, now_ns)
            &&& full(s.upstream_rate_limiter, l, now_ns)
        }),
{
}

/// Whether a limiter has the configured rates and a second's worth in each bucket.
pub open spec fn full(r: RateLimiter, l: SessionLimits, now_ns: u128) -> bool {
    &&& r.max_pps == l.rate_limit_pps
    &&& r.max_bps == l.rate_limit_bps
    &&& r.packet_tokens == l.rate_limit_pps
    &&& r.byte_tokens == l.rate_limit_bps
    &&& r.last_refill == us_of(now_ns)
}

/// Binding takes away only sessions that have expired, and only where the table is full; the
/// others stay as they are.
pub proof fn law_binding_keeps_live_sessions(
    t: Map<u64, RelaySession>,
    l: SessionLimits,
    session_id: SessionId,
    client_addr: SocketAddr,
    now_ns: u128,
    k: u64,
)
    requires
        t.contains_key(k),
        t.dom().len() < l.max_sessions || ms_of(now_ns) <= t[k].last_activity_ms + l.timeout_ms(),
    ensures
        binding(t, l, session_id, client_addr, now_ns).1.contains_key(k),
        binding(t, l, session_id, client_addr, now_ns).1[k] == t[k],
{
}

/// A session is refused where there is no room, and a refusal adds none.
pub proof fn law_limits_are_enforced(
    t: Map<u64, RelaySession>,
    l: SessionLimits,
    session_id: SessionId,
    client_addr: SocketAddr,
    now_ns: u128,
    k: u64,
)
    ensures
        ({
            let kept = if t.dom().len() < l.max_sessions {
                t
            } else {
                live_sessions(t, l.timeout_ms(), ms_of(now_ns))
            };
            let r = binding(t, l, session_id, client_addr, now_ns);
            &&& kept.dom().len() >= l.max_sessions ==> !r.0
            &&& sessions_from(kept, client_addr.ip) >= l.max_sessions_per_ip ==> !r.0
            &&& !tracked_ips(kept).contains(client_addr.ip) && tracked_ips(kept).len()
                >= l.max_tracked_ips ==> !r.0
            &&& t.contains_key(session_id.0) ==> !r.0
            &&& !r.0 && r.1.contains_key(k) ==> t.contains_key(k)
            &&& r.1.contains_key(k) && k != session_id.0 ==> t.contains_key(k) && r.1[k] == t[k]
        }),
{
}

/// The timeout in the table is the one that was set, in whole milliseconds.
pub proof fn law_timeout_is_the_one_set(l: SessionLimits)
    requires
        l.timeout.nanos < 1_000_000_000,
        l.timeout.secs <= u64::MAX / 1000 - 1,
    ensures
        l.timeout_ms() * 1_000_000 <= l.timeout.secs * 1_000_000_000 + l.timeout.nanos,
        l.timeout.secs * 1_000_000_000 + l.timeout.nanos < (l.timeout_ms() + 1) * 1_000_000,
{
}

/// A snapshot shows the numbers of the session, and its age to the nanosecond.
pub proof fn law_snapshots_show_the_session(s: RelaySession, now_ns: u128)
    requires
        s.created_at_ns <= now_ns,
        (now_ns - s.created_at_ns) / 1_000_000_000 <= u64::MAX,
    ensures
        ({
            let shown = s.snapshot(now_ns);
            &&& shown.session_id == s.session_id
            &&& shown.client_addr == s.client_addr
            &&& shown.bytes_sent == s.bytes_sent
            &&& shown.bytes_received == s.bytes_received
            &&& shown.packets_sent == s.packets_sent
            &&& shown.packets_received == s.packets_received
            &&& shown.age.nanos < 1_000_000_000
            &&& shown.age.nanoseconds() == now_ns - s.created_at_ns
        }),
{
}

/// The totals are sums over the sessions: one more session adds its own numbers.
pub proof fn law_totals_add_up(t: Map<u64, RelaySession>, k: u64, s: RelaySession)
    requires
        t.dom().finite(),
        !t.contains_key(k),
        t.dom().len() < usize::MAX,
        totals(t).total_bytes_sent + s.bytes_sent <= u64::MAX,
        totals(t).total_bytes_received + s.bytes_received <= u64::MAX,
        totals(t).total_packets_sent + s.packets_sent <= u64::MAX,
        totals(t).total_packets_received + s.packets_received <= u64::MAX,
    ensures
        ({
            let after = totals(t.insert(k, s));
            &&& after.session_count == totals(t).session_count + 1
            &&& after.total_bytes_sent == totals(t).total_bytes_sent + s.bytes_sent
            &&& after.total_bytes_received == totals(t).total_bytes_received + s.bytes_received
            &&& after.total_packets_sent == totals(t).total_packets_sent + s.packets_sent
            &&& after.total_packets_received == totals(t).total_packets_received
                + s.packets_received
        }),
{
    lemma_map_sum_insert(t, k, s, |s: RelaySession| s.bytes_sent as int);
    lemma_map_sum_insert(t, k, s, |s: RelaySession| s.bytes_received as int);
    lemma_map_sum_insert(t, k, s, |s: RelaySession| s.packets_sent as int);
    lemma_map_sum_insert(t, k, s, |s: RelaySession| s.packets_received as int);
}

/// Without sessions there is nothing to sum up.
pub proof fn law_totals_start_at_zero()
    ensures
        totals(Map::<u64, RelaySession>::empty()) == (AggregateStats {
            session_count: 0,
            total_bytes_sent: 0,
            total_bytes_received: 0,
            total_packets_sent: 0,
            total_packets_received: 0,
        }),
{
    let t = Map::<u64, RelaySession>::empty();
    lemma_map_sum_zero(t, |s: RelaySession| s.bytes_sent as int);
    lemma_map_sum_zero(t, |s: RelaySession| s.bytes_received as int);
    lemma_map_sum_zero(t, |s: RelaySession| s.packets_sent as int);
    lemma_map_sum_zero(t, |s: RelaySession| s.packets_received as int);
    assert(t.dom() =~= Set::<u64>::empty());
}

/// Sessions are counted by the address of their client: one more session raises the count of its
/// address by one and leaves every other as it is.
pub proof fn law_sessions_are_counted_by_address(
    t: Map<u64, RelaySession>,
    k: u64,
    s: RelaySession,
    ip: IpAddr,
)
    requires
        t.dom().finite(),
        !t.contains_key(k),
    ensures
        sessions_from(t.insert(k, s), ip) == sessions_from(t, ip) + (if s.client_addr.ip == ip {
            1int
        } else {
            0int
        }),
        sessions_from(Map::<u64, RelaySession>::empty(), ip) == 0,
        tracked_ips(t.insert(k, s)).contains(ip) <==> tracked_ips(t).contains(ip)
            || s.client_addr.ip == ip,
        !tracked_ips(Map::<u64, RelaySession>::empty()).contains(ip),
{
    lemma_map_sum_insert(t, k, s, from_ip(ip));
    lemma_map_sum_zero(Map::<u64, RelaySession>::empty(), from_ip(ip));
    let t2 = t.insert(k, s);
    if tracked_ips(t).contains(ip) {
        let j: u64 = choose|j: u64| #[trigger] t.contains_key(j) && t[j].client_addr.ip == ip;
        assert(t2.contains_key(j) && t2[j].client_addr.ip == ip);
    }
    if s.client_addr.ip == ip {
        assert(t2.contains_key(k) && t2[k].client_addr.ip == ip);
    }
    if tracked_ips(t2).contains(ip) {
        let j: u64 = choose|j: u64| #[trigger] t2.contains_key(j) && t2[j].client_addr.ip == ip;
        if j != k {
            assert(t.contains_key(j) && t[j].client_addr.ip == ip);
        }
    }
}

/// A packet that a limiter refuses leaves its session as it was but for the time that its limiter
/// has counted.
pub proof fn law_limited_packets_cost_nothing(
    t: Map<u64, RelaySession>,
    l: SessionLimits,
    session_id: SessionId,
    client_addr: SocketAddr,
    bytes: usize,
    now_ns: u128,
)
    requires
        client_packet(t, l, session_id, client_addr, bytes, now_ns).0 is RateLimited,
    ensures
        ({
            let s = t[session_id.0];
            let after = client_packet(t, l, session_id, client_addr, bytes, now_ns).1[session_id.0];
            &&& after == (RelaySession { client_rate_limiter: after.client_rate_limiter, ..s })
            &&& after.client_rate_limiter == s.client_rate_limiter.refilled(us_of(now_ns))
        }),
{
}

/// Counting and touching change the session that they name, in what they are about, and nothing
/// else; where there is no such session they change nothing.
pub proof fn law_sessions_change_one_by_one(
    t: Map<u64, RelaySession>,
    session_id: SessionId,
    bytes: usize,
    now_ms: u64,
    k: u64,
)
    requires
        t.contains_key(k),
        t[k].bytes_sent + bytes <= u64::MAX,
        t[k].bytes_received + bytes <= u64::MAX,
        t[k].packets_sent < u64::MAX,
        t[k].packets_received < u64::MAX,
    ensures
        k == session_id.0 ==> sent_on(t, session_id, bytes)[k] == (RelaySession {
            bytes_sent: (t[k].bytes_sent + bytes) as u64,
            packets_sent: (t[k].packets_sent + 1) as u64,
            ..t[k]
        }),
        k == session_id.0 ==> received_on(t, session_id, bytes)[k] == (RelaySession {
            bytes_received: (t[k].bytes_received + bytes) as u64,
            packets_received: (t[k].packets_received + 1) as u64,
            ..t[k]
        }),
        k == session_id.0 ==> touched_on(t, session_id, now_ms)[k] == (RelaySession {
            last_activity_ms: now_ms,
            ..t[k]
        }),
        k != session_id.0 ==> sent_on(t, session_id, bytes)[k] == t[k] && received_on(
            t,
            session_id,
            bytes,
        )[k] == t[k] && touched_on(t, session_id, now_ms)[k] == t[k],
        sent_on(t, session_id, bytes).dom() == t.dom(),
        received_on(t, session_id, bytes).dom() == t.dom(),
        touched_on(t, session_id, now_ms).dom() == t.dom(),
{
    assert(sent_on(t, session_id, bytes).dom() =~= t.dom());
    assert(received_on(t, session_id, bytes).dom() =~= t.dom());
    assert(touched_on(t, session_id, now_ms).dom() =~= t.dom());
}

} // verus!
