//! Limits on handshake packets: one for all sources together, one for each source.

use crate::ip_map::{Expiring, IpMap, fresh};
use crate::net::IpAddr;
use crate::relay::rate_limiter::monus;
use crate::time::Clock;
use vstd::prelude::*;

verus! {

/// Most source addresses with a window of their own.
pub const MAX_HANDSHAKE_RATE_TRACKED_IPS: usize = 16384;

/// How long, in nanoseconds, a window is kept after it began.
pub const HANDSHAKE_RATE_IDLE_TTL_NS: u128 = 10_000_000_000;

/// Length of a window in nanoseconds.
pub const WINDOW_NS: u128 = 1_000_000_000;

/// Handshake packets counted in one window.
#[derive(Clone, Copy, Debug, PartialEq, Eq, Structural)]
pub struct HandshakeRateEntry {
    /// When the window began, in nanoseconds.
    pub window_start: u128,
    /// Packets let through since.
    pub count: u32,
}

/// The window at `now`: a new one once a second has passed.
pub open spec fn rolled(e: HandshakeRateEntry, now: u128) -> HandshakeRateEntry {
    if monus(now as nat, e.window_start as nat) >= WINDOW_NS {
        HandshakeRateEntry { window_start: now, count: 0 }
    } else {
        e
    }
}

/// The window after one more packet.
pub open spec fn counted(e: HandshakeRateEntry) -> HandshakeRateEntry {
    HandshakeRateEntry { window_start: e.window_start, count: (e.count + 1) as u32 }
}

/// A window is kept for ten seconds after it began.
impl Expiring for HandshakeRateEntry {
    open spec fn stale(&self, now: u128) -> bool {
        monus(now as nat, self.window_start as nat) > HANDSHAKE_RATE_IDLE_TTL_NS
    }

    fn is_stale(&self, now: u128) -> (b: bool) {
        now.saturating_sub(self.window_start) > HANDSHAKE_RATE_IDLE_TTL_NS
    }
}

/// The state of the limiter.
#[verifier::ext_equal]
pub struct HandshakeRates {
    pub global: HandshakeRateEntry,
    pub entries: Map<IpAddr, HandshakeRateEntry>,
}

/// Whether a handshake packet from `ip` may pass at `now`, and the state afterwards. The window
/// for all sources is asked first; a packet that it refuses does not touch the other windows.
pub open spec fn admission(
    s: HandshakeRates,
    max_pps: u32,
    global_max_pps: u32,
    ip: IpAddr,
    now: u128,
) -> (bool, HandshakeRates) {
    let g = if global_max_pps > 0 {
        rolled(s.global, now)
    } else {
        s.global
    };
    if global_max_pps > 0 && g.count >= global_max_pps {
        (false, HandshakeRates { global: g, entries: s.entries })
    } else {
        let global = if global_max_pps > 0 {
            counted(g)
        } else {
            g
        };
        let m = if s.entries.dom().len() >= MAX_HANDSHAKE_RATE_TRACKED_IPS {
            fresh(s.entries, now)
        } else {
            s.entries
        };
        if m.dom().len() >= MAX_HANDSHAKE_RATE_TRACKED_IPS {
            (false, HandshakeRates { global, entries: m })
        } else {
            let e = if m.contains_key(ip) {
                rolled(m[ip], now)
            } else {
                HandshakeRateEntry { window_start: now, count: 0 }
            };
            if e.count >= max_pps {
                (false, HandshakeRates { global, entries: m.insert(ip, e) })
            } else {
                (true, HandshakeRates { global, entries: m.insert(ip, counted(e)) })
            }
        }
    }
}

/// Handshake packet limiter.
pub struct HandshakeRateLimiter {
    max_pps: u32,
    global_max_pps: u32,
    entries: IpMap<HandshakeRateEntry>,
    global: HandshakeRateEntry,
    clock: Clock,
}

impl HandshakeRateLimiter {
    /// The windows.
    pub closed spec fn rates(self) -> HandshakeRates {
        HandshakeRates { global: self.global, entries: self.entries@ }
    }

    /// The limit for each source, and for all together.
    pub closed spec fn limits(self) -> (u32, u32) {
        (self.max_pps, self.global_max_pps)
    }

    /// The clock of the windows.
    pub closed spec fn timer(self) -> Clock {
        self.clock
    }

    /// A limiter with no packets counted. A global limit of zero is none.
    pub fn new(max_pps: u32, global_max_pps: u32) -> (l: HandshakeRateLimiter)
        ensures
            l.limits() == (max_pps, global_max_pps),
            l.timer().started(),
            l.timer().reads_ns(l.rates().global.window_start),
            l.rates().global.count == 0,
            l.rates().entries == Map::<IpAddr, HandshakeRateEntry>::empty(),
    {
        Self::with_clock(max_pps, global_max_pps, Clock::start())
    }

    /// A limiter with no packets counted that reads `clock`.
    pub fn with_clock(max_pps: u32, global_max_pps: u32, clock: Clock) -> (l: HandshakeRateLimiter)
        ensures
            l.limits() == (max_pps, global_max_pps),
            l.timer() == clock,
            clock.reads_ns(l.rates().global.window_start),
            l.rates().global.count == 0,
            l.rates().entries == Map::<IpAddr, HandshakeRateEntry>::empty(),
    {
        let now: u128 = clock.now_ns();
        HandshakeRateLimiter {
            max_pps,
            global_max_pps,
            entries: IpMap::new(),
            global: HandshakeRateEntry { window_start: now, count: 0 },
            clock,
        }
    }

    fn roll(e: HandshakeRateEntry, now: u128) -> (r: HandshakeRateEntry)
        ensures
            r == rolled(e, now),
    {
        if now.saturating_sub(e.window_start) >= WINDOW_NS {
            HandshakeRateEntry { window_start: now, count: 0 }
        } else {
            e
        }
    }

    /// Whether a handshake packet from `ip` may pass at `now`.
    pub fn allow_at(&mut self, ip: IpAddr, now: u128) -> (allowed: bool)
        ensures
            final(self).limits() == old(self).limits(),
            final(self).timer() == old(self).timer(),
            (allowed, final(self).rates()) == admission(
                old(self).rates(),
                old(self).limits().0,
                old(self).limits().1,
                ip,
                now,
            ),
    {
        if self.global_max_pps > 0 {
            self.global = Self::roll(self.global, now);
            if self.global.count >= self.global_max_pps {
                return false;
            }
            self.global = HandshakeRateEntry {
                window_start: self.global.window_start,
                count: self.global.count + 1,
            };
        }
        if self.entries.has_at_least(MAX_HANDSHAKE_RATE_TRACKED_IPS) {
            self.entries.sweep(now);
            if self.entries.has_at_least(MAX_HANDSHAKE_RATE_TRACKED_IPS) {
                return false;
            }
        }
        let entry = match self.entries.get(&ip) {
            Some(e) => Self::roll(*e, now),
            None => HandshakeRateEntry { window_start: now, count: 0 },
        };
        if entry.count >= self.max_pps {
            self.entries.insert(ip, entry);
            return false;
        }
        self.entries.insert(
            ip,
            HandshakeRateEntry { window_start: entry.window_start, count: entry.count + 1 },
        );
        true
    }

    /// Whether a handshake packet from `ip` may pass.
    pub fn allow(&mut self, ip: IpAddr) -> (allowed: bool)
        ensures
            final(self).limits() == old(self).limits(),
            final(self).timer() == old(self).timer(),
            exists|now: u128|
                old(self).timer().reads_ns(now) && (allowed, final(self).rates()) == #[trigger] admission(
                    old(self).rates(),
                    old(self).limits().0,
                    old(self).limits().1,
                    ip,
                    now,
                ),
    {
        let now: u128 = self.clock.now_ns();
        self.allow_at(ip, now)
    }
}

/// How many of the packets `ps`, each a source and a time, get through one after the other.
pub open spec fn admitted(
    s: HandshakeRates,
    max_pps: u32,
    global_max_pps: u32,
    ps: Seq<(IpAddr, u128)>,
) -> nat
    decreases ps.len(),
{
    if ps.len() == 0 {
        0
    } else {
        let r = admission(s, max_pps, global_max_pps, ps.first().0, ps.first().1);
        admitted(r.1, max_pps, global_max_pps, ps.drop_first()) + (if r.0 {
            1nat
        } else {
            0nat
        })
    }
}

/// Within one window no more packets get through than the global limit, however many sources
/// they claim to come from.
pub proof fn law_global_limit_holds_for_any_sources(
    s: HandshakeRates,
    max_pps: u32,
    global_max_pps: u32,
    ps: Seq<(IpAddr, u128)>,
)
    requires
        global_max_pps > 0,
        forall|i: int|
            0 <= i < ps.len() ==> monus(
                (#[trigger] ps[i]).1 as nat,
                s.global.window_start as nat,
            ) < WINDOW_NS,
    ensures
        admitted(s, max_pps, global_max_pps, ps) <= monus(
            global_max_pps as nat,
            s.global.count as nat,
        ),
    decreases ps.len(),
{
    if ps.len() != 0 {
        let r = admission(s, max_pps, global_max_pps, ps.first().0, ps.first().1);
        assert(monus(ps[0].1 as nat, s.global.window_start as nat) < WINDOW_NS);
        assert(r.1.global.window_start == s.global.window_start);
        assert forall|i: int| 0 <= i < ps.drop_first().len() implies monus(
            (#[trigger] ps.drop_first()[i]).1 as nat,
            r.1.global.window_start as nat,
        ) < WINDOW_NS by {
            assert(ps.drop_first()[i] == ps[i + 1]);
        }
        law_global_limit_holds_for_any_sources(r.1, max_pps, global_max_pps, ps.drop_first());
    }
}

/// No window ever counts more packets than its limit allows.
pub proof fn law_windows_stay_within_limits(
    s: HandshakeRates,
    max_pps: u32,
    global_max_pps: u32,
    ip: IpAddr,
    now: u128,
)
    requires
        global_max_pps > 0 ==> s.global.count <= global_max_pps,
        forall|k: IpAddr| #[trigger] s.entries.contains_key(k) ==> s.entries[k].count <= max_pps,
    ensures
        global_max_pps > 0 ==> admission(s, max_pps, global_max_pps, ip, now).1.global.count
            <= global_max_pps,
        forall|k: IpAddr| #[trigger]
            admission(s, max_pps, global_max_pps, ip, now).1.entries.contains_key(k)
                ==> admission(s, max_pps, global_max_pps, ip, now).1.entries[k].count <= max_pps,
{
    let r = admission(s, max_pps, global_max_pps, ip, now).1;
    assert forall|k: IpAddr| #[trigger] r.entries.contains_key(k) implies r.entries[k].count
        <= max_pps by {
        if k != ip {
            assert(s.entries.contains_key(k));
        } else if s.entries.contains_key(ip) {
            assert(s.entries[ip].count <= max_pps);
        }
    }
}

/// A source that kept quiet for a second may try again, however often it was refused before: its
/// count begins anew with this packet.
pub proof fn law_quiet_sources_may_try_again(
    s: HandshakeRates,
    max_pps: u32,
    global_max_pps: u32,
    ip: IpAddr,
    now: u128,
)
    requires
        max_pps > 0,
        global_has_room(s, global_max_pps, now),
        s.entries.dom().len() < 16384,
        s.entries.contains_key(ip),
        now >= s.entries[ip].window_start + 1_000_000_000,
    ensures
        admission(s, max_pps, global_max_pps, ip, now).0,
        admission(s, max_pps, global_max_pps, ip, now).1.entries[ip].count == 1,
        admission(s, max_pps, global_max_pps, ip, now).1.entries[ip].window_start == now,
{
}

/// Whether the window for all sources takes another packet: there is no limit on it, its second
/// is over, or it counts fewer packets than the limit.
pub open spec fn global_has_room(s: HandshakeRates, global_max_pps: u32, now: u128) -> bool {
    ||| global_max_pps == 0
    ||| now >= s.global.window_start + 1_000_000_000
    ||| s.global.count < global_max_pps
}

/// A source that was not heard of before may send its first packet, and is counted from there.
pub proof fn law_new_sources_are_heard(
    s: HandshakeRates,
    max_pps: u32,
    global_max_pps: u32,
    ip: IpAddr,
    now: u128,
)
    requires
        max_pps > 0,
        global_has_room(s, global_max_pps, now),
        s.entries.dom().len() < 16384,
        !s.entries.contains_key(ip),
    ensures
        admission(s, max_pps, global_max_pps, ip, now).0,
        admission(s, max_pps, global_max_pps, ip, now).1.entries[ip].count == 1,
        admission(s, max_pps, global_max_pps, ip, now).1.entries[ip].window_start == now,
{
}

/// Within its second a source gets as many packets through as its limit says: one more is let
/// through and counted exactly while the count is below it.
pub proof fn law_sources_are_counted(
    s: HandshakeRates,
    max_pps: u32,
    global_max_pps: u32,
    ip: IpAddr,
    now: u128,
)
    requires
        global_has_room(s, global_max_pps, now),
        s.entries.dom().len() < 16384,
        s.entries.contains_key(ip),
        now < s.entries[ip].window_start + 1_000_000_000,
    ensures
        admission(s, max_pps, global_max_pps, ip, now).0 <==> s.entries[ip].count < max_pps,
        admission(s, max_pps, global_max_pps, ip, now).1.entries[ip].window_start
            == s.entries[ip].window_start,
        admission(s, max_pps, global_max_pps, ip, now).1.entries[ip].count == s.entries[ip].count
            + (if s.entries[ip].count < max_pps {
            1int
        } else {
            0int
        }),
{
}

/// The window for all sources begins anew after a second, counts every packet that it lets on,
/// and refuses once it is full; what it refuses touches no source.
pub proof fn law_global_window_is_counted(
    s: HandshakeRates,
    max_pps: u32,
    global_max_pps: u32,
    ip: IpAddr,
    now: u128,
)
    requires
        global_max_pps > 0,
    ensures
        ({
            let r = admission(s, max_pps, global_max_pps, ip, now);
            let over = now >= s.global.window_start + 1_000_000_000;
            &&& over ==> r.1.global.count == 1 && r.1.global.window_start == now
            &&& !over ==> r.1.global.window_start == s.global.window_start
            &&& !over && s.global.count < global_max_pps ==> r.1.global.count == s.global.count + 1
            &&& !over && s.global.count >= global_max_pps ==> !r.0 && r.1.global.count
                == s.global.count && r.1.entries == s.entries
        }),
{
}

/// A packet touches the window of no other source, but that a full table forgets the sources
/// whose window began more than ten seconds ago.
pub proof fn law_sources_are_apart(
    s: HandshakeRates,
    max_pps: u32,
    global_max_pps: u32,
    ip: IpAddr,
    other: IpAddr,
    now: u128,
)
    requires
        other != ip,
    ensures
        ({
            let r = admission(s, max_pps, global_max_pps, ip, now).1.entries;
            let kept = s.entries.dom().len() < 16384 || (
            s.entries.contains_key(other) && now <= s.entries[other].window_start + 10_000_000_000);
            &&& r.contains_key(other) ==> s.entries.contains_key(other) && r[other]
                == s.entries[other]
            &&& s.entries.contains_key(other) && kept ==> r.contains_key(other)
        }),
{
}

/// A full table makes room: once enough sources have been quiet for ten seconds, a new one may
/// send.
pub proof fn law_a_full_table_makes_room(
    s: HandshakeRates,
    max_pps: u32,
    global_max_pps: u32,
    ip: IpAddr,
    now: u128,
)
    requires
        max_pps > 0,
        global_has_room(s, global_max_pps, now),
        !s.entries.contains_key(ip),
        forall|k: IpAddr| #[trigger]
            s.entries.contains_key(k) ==> now > s.entries[k].window_start + 10_000_000_000,
    ensures
        admission(s, max_pps, global_max_pps, ip, now).0,
{
    assert(fresh(s.entries, now) =~= Map::<IpAddr, HandshakeRateEntry>::empty());
    assert(Map::<IpAddr, HandshakeRateEntry>::empty().dom() =~= Set::<IpAddr>::empty());
}

/// How many of the packets `ps` that come from `ip` get through one after the other.
pub open spec fn admitted_from(
    s: HandshakeRates,
    max_pps: u32,
    global_max_pps: u32,
    ps: Seq<(IpAddr, u128)>,
    ip: IpAddr,
) -> nat
    decreases ps.len(),
{
    if ps.len() == 0 {
        0
    } else {
        let r = admission(s, max_pps, global_max_pps, ps.first().0, ps.first().1);
        admitted_from(r.1, max_pps, global_max_pps, ps.drop_first(), ip) + (if r.0
            && ps.first().0 == ip {
            1nat
        } else {
            0nat
        })
    }
}

/// Within one window a source gets no more packets through than its limit, whatever else comes
/// in between.
pub proof fn law_source_limit_holds(
    s: HandshakeRates,
    max_pps: u32,
    global_max_pps: u32,
    ps: Seq<(IpAddr, u128)>,
    ip: IpAddr,
)
    requires
        s.entries.contains_key(ip),
        forall|i: int|
            0 <= i < ps.len() ==> (#[trigger] ps[i]).1 < s.entries[ip].window_start
                + 1_000_000_000,
    ensures
        admitted_from(s, max_pps, global_max_pps, ps, ip) <= monus(
            max_pps as nat,
            s.entries[ip].count as nat,
        ),
    decreases ps.len(),
{
    if ps.len() != 0 {
        let p = ps.first();
        assert(p == ps[0]);
        let r = admission(s, max_pps, global_max_pps, p.0, p.1);
        if p.0 != ip {
            law_sources_are_apart(s, max_pps, global_max_pps, p.0, ip, p.1);
        }
        assert(r.1.entries.contains_key(ip));
        assert(r.1.entries[ip].window_start == s.entries[ip].window_start);
        assert forall|i: int| 0 <= i < ps.drop_first().len() implies (
        #[trigger] ps.drop_first()[i]).1 < r.1.entries[ip].window_start + 1_000_000_000 by {
            assert(ps.drop_first()[i] == ps[i + 1]);
        }
        law_source_limit_holds(r.1, max_pps, global_max_pps, ps.drop_first(), ip);
    }
}

/// Where the table is full of sources that were heard within ten seconds, and where no source may
/// send at all, nothing passes.
pub proof fn law_nothing_passes_without_room(
    s: HandshakeRates,
    max_pps: u32,
    global_max_pps: u32,
    ip: IpAddr,
    now: u128,
)
    requires
        max_pps == 0 || (s.entries.dom().len() >= 16384 && forall|k: IpAddr| #[trigger]
            s.entries.contains_key(k) ==> now <= s.entries[k].window_start + 10_000_000_000),
    ensures
        !admission(s, max_pps, global_max_pps, ip, now).0,
{
    if max_pps > 0 {
        assert(fresh(s.entries, now) =~= s.entries);
    }
}

} // verus!
