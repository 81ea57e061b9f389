//! Rate limiting for handshake requests.
//!
//! Limits the number of handshake requests per address per time window. All addresses of one
//! IPv6 `/64` network count as one: that is what a single customer is given.

use crate::ip_map::{Expiring, IpMap, fresh};
use crate::net::IpAddr;
use crate::relay::rate_limiter::monus;
use crate::time::Clock;
use vstd::prelude::*;

verus! {

/// Default maximum handshakes per address per minute.
pub const DEFAULT_MAX_HANDSHAKES_PER_MINUTE: u32 = 5;

/// Length of a window, in seconds.
pub const RATE_LIMIT_WINDOW_SECS: u64 = 60;

/// Time between cleanups, in seconds.
pub const CLEANUP_INTERVAL_SECS: u64 = 300;

/// Maximum tracked addresses.
pub const DEFAULT_MAX_TRACKED_IPS: usize = 100_000;

/// The address that stands for all that share a limit.
pub open spec fn bucket_of(addr: IpAddr) -> IpAddr {
    match addr {
        IpAddr::V4(a) => addr,
        IpAddr::V6(a) => IpAddr::V6(
            (a / 0x1_0000_0000_0000_0000 * 0x1_0000_0000_0000_0000) as u128,
        ),
    }
}

/// The key of an address: an IPv4 address itself, an IPv6 address with its lower half zero.
pub fn rate_limit_key(addr: IpAddr) -> (key: IpAddr)
    ensures
        key == bucket_of(addr),
{
    match addr {
        IpAddr::V4(_) => addr,
        IpAddr::V6(a) => IpAddr::V6(a / 0x1_0000_0000_0000_0000 * 0x1_0000_0000_0000_0000),
    }
}

/// Requests counted in one window.
#[derive(Clone, Copy, Debug, PartialEq, Eq, Structural)]
pub struct RateLimitEntry {
    /// Number of requests in current window.
    pub count: u32,
    /// Start of current window, in nanoseconds.
    pub window_start: u128,
}

/// Whether a window has ended.
pub open spec fn ended(e: RateLimitEntry, now: u128) -> bool {
    monus(now as nat, e.window_start as nat) > RATE_LIMIT_WINDOW_SECS * 1_000_000_000
}

impl Expiring for RateLimitEntry {
    open spec fn stale(&self, now: u128) -> bool {
        ended(*self, now)
    }

    fn is_stale(&self, now: u128) -> (b: bool) {
        now.saturating_sub(self.window_start) > RATE_LIMIT_WINDOW_SECS as u128 * 1_000_000_000
    }
}

/// The windows and when they were last cleaned up.
#[verifier::ext_equal]
pub struct RateState {
    pub requests: Map<IpAddr, RateLimitEntry>,
    pub last_cleanup: u128,
}

/// The state after the periodic cleanup, if it is due.
pub open spec fn tidied(s: RateState, now: u128) -> RateState {
    if monus(now as nat, s.last_cleanup as nat) > CLEANUP_INTERVAL_SECS * 1_000_000_000 {
        RateState { requests: fresh(s.requests, now), last_cleanup: now }
    } else {
        s
    }
}

/// Whether a request from `addr` is allowed at `now`, and the state afterwards. At capacity a new
/// address is refused.
pub open spec fn ruling(
    s: RateState,
    max_per_window: u32,
    max_tracked_ips: usize,
    addr: IpAddr,
    now: u128,
) -> (bool, RateState) {
    let key = bucket_of(addr);
    let t = tidied(s, now);
    let m = t.requests;
    if !m.contains_key(key) && m.dom().len() >= max_tracked_ips {
        (false, t)
    } else {
        let e = if m.contains_key(key) && !ended(m[key], now) {
            m[key]
        } else {
            RateLimitEntry { count: 0, window_start: now }
        };
        if e.count >= max_per_window {
            (false, RateState { requests: m.insert(key, e), ..t })
        } else {
            (
                true,
                RateState {
                    requests: m.insert(
                        key,
                        RateLimitEntry {
                            count: (e.count + 1) as u32,
                            window_start: e.window_start,
                        },
                    ),
                    ..t
                },
            )
        }
    }
}

/// The state after the limit of an address was reset.
pub open spec fn reset_for(s: RateState, addr: IpAddr) -> RateState {
    RateState { requests: s.requests.remove(bucket_of(addr)), ..s }
}

/// The state after the windows that have ended at `now` were cleaned up by hand.
pub open spec fn cleaned(s: RateState, now: u128) -> RateState {
    RateState { requests: fresh(s.requests, now), ..s }
}

/// Whether at most `cap` addresses are tracked.
pub open spec fn within(s: RateState, cap: usize) -> bool {
    s.requests.dom().finite() && s.requests.dom().len() <= cap
}

/// Requests counted for `addr` at `now`.
pub open spec fn counted(m: Map<IpAddr, RateLimitEntry>, addr: IpAddr, now: u128) -> u32 {
    let key = bucket_of(addr);
    if !m.contains_key(key) || ended(m[key], now) {
        0
    } else {
        m[key].count
    }
}

proof fn lemma_push_contains(s: Seq<IpAddr>, a: IpAddr, x: IpAddr)
    ensures
        s.push(a).contains(x) <==> s.contains(x) || x == a,
{
    let t = s.push(a);
    assert(t[s.len() as int] == a);
    if s.contains(x) {
        assert(t[s.index_of(x)] == x);
    }
    if t.contains(x) && x != a {
        let j = t.index_of(x);
        assert(s[j] == x);
    }
}

/// Rate limiter for handshake requests.
pub struct HandshakeRateLimiter {
    requests: IpMap<RateLimitEntry>,
    max_per_window: u32,
    last_cleanup: u128,
    max_tracked_ips: usize,
    clock: Clock,
}

impl HandshakeRateLimiter {
    /// The windows.
    pub closed spec fn state(self) -> RateState {
        RateState { requests: self.requests@, last_cleanup: self.last_cleanup }
    }

    /// The clock of the windows.
    pub closed spec fn timer(self) -> Clock {
        self.clock
    }

    /// No more addresses are tracked than may be.
    pub closed spec fn wf(self) -> bool {
        within(self.state(), self.limits().1)
    }

    /// Most requests per window, and most tracked addresses.
    pub closed spec fn limits(self) -> (u32, usize) {
        (self.max_per_window, self.max_tracked_ips)
    }

    /// Create a new rate limiter with default settings.
    pub fn new() -> (l: HandshakeRateLimiter)
        ensures
            l.wf(),
            l.limits() == (DEFAULT_MAX_HANDSHAKES_PER_MINUTE, DEFAULT_MAX_TRACKED_IPS),
            l.state().requests == Map::<IpAddr, RateLimitEntry>::empty(),
            l.timer().started(),
            l.timer().reads_ns(l.state().last_cleanup),
    {
        Self::with_limit(DEFAULT_MAX_HANDSHAKES_PER_MINUTE)
    }

    /// Create a new rate limiter with a custom limit.
    pub fn with_limit(max_per_minute: u32) -> (l: HandshakeRateLimiter)
        ensures
            l.wf(),
            l.limits() == (max_per_minute, DEFAULT_MAX_TRACKED_IPS),
            l.state().requests == Map::<IpAddr, RateLimitEntry>::empty(),
            l.timer().started(),
            l.timer().reads_ns(l.state().last_cleanup),
    {
        Self::with_limits(max_per_minute, DEFAULT_MAX_TRACKED_IPS)
    }

    /// Create a new rate limiter with custom limits.
    pub fn with_limits(max_per_minute: u32, max_tracked_ips: usize) -> (l: HandshakeRateLimiter)
        ensures
            l.wf(),
            l.limits() == (max_per_minute, max_tracked_ips),
            l.state().requests == Map::<IpAddr, RateLimitEntry>::empty(),
            l.timer().started(),
            l.timer().reads_ns(l.state().last_cleanup),
    {
        let clock = Clock::start();
        let now: u128 = clock.now_ns();
        HandshakeRateLimiter {
            requests: IpMap::new(),
            max_per_window: max_per_minute,
            last_cleanup: now,
            max_tracked_ips,
            clock,
        }
    }

    /// Check at `now` if a request from the given address should be allowed, and count it.
    pub fn allow_at(&mut self, addr: IpAddr, now: u128) -> (allowed: bool)
        requires
            old(self).wf(),
        ensures
            final(self).wf(),
            final(self).limits() == old(self).limits(),
            final(self).timer() == old(self).timer(),
            (allowed, final(self).state()) == ruling(
                old(self).state(),
                old(self).limits().0,
                old(self).limits().1,
                addr,
                now,
            ),
    {
        proof {
            law_tracking_is_bounded(
                self.state(),
                self.max_per_window,
                self.max_tracked_ips,
                addr,
                now,
            );
        }
        let key = rate_limit_key(addr);
        self.maybe_cleanup(now);
        let entry = match self.requests.get(&key) {
            Some(e) => if e.is_stale(now) {
                RateLimitEntry { count: 0, window_start: now }
            } else {
                *e
            },
            None => {
                if self.requests.has_at_least(self.max_tracked_ips) {
                    return false;
                }
                RateLimitEntry { count: 0, window_start: now }
            },
        };
        if entry.count >= self.max_per_window {
            self.requests.insert(key, entry);
            return false;
        }
        self.requests.insert(
            key,
            RateLimitEntry { count: entry.count + 1, window_start: entry.window_start },
        );
        true
    }

    /// Check if a request from the given address should be allowed, and count it.
    pub fn allow(&mut self, addr: IpAddr) -> (allowed: bool)
        requires
            old(self).wf(),
        ensures
            final(self).wf(),
            final(self).limits() == old(self).limits(),
            final(self).timer() == old(self).timer(),
            exists|now: u128|
                old(self).timer().reads_ns(now) && (allowed, final(self).state()) == #[trigger] ruling(
                    old(self).state(),
                    old(self).limits().0,
                    old(self).limits().1,
                    addr,
                    now,
                ),
    {
        let now: u128 = self.clock.now_ns();
        self.allow_at(addr, now)
    }

    /// The number of windows that have not ended at `now`.
    fn open_windows(&self, now: u128) -> (n: usize)
        ensures
            n == fresh(self.requests@, now).dom().len(),
    {
        let ks = self.requests.keys();
        let mut n: usize = 0;
        let mut i: usize = 0;
        let ghost mut open: Seq<IpAddr> = Seq::empty();
        while i < ks.len()
            invariant
                i <= ks@.len(),
                n <= i,
                n == open.len(),
                ks@.no_duplicates(),
                forall|ip: IpAddr| self.requests@.contains_key(ip) <==> #[trigger] ks@.contains(ip),
                open.no_duplicates(),
                forall|ip: IpAddr| #[trigger]
                    open.contains(ip) <==> ks@.take(i as int).contains(ip)
                        && !self.requests@[ip].stale(now),
            decreases ks@.len() - i,
        {
            let ip = ks[i];
            let ghost before = open;
            proof {
                assert(ks@.contains(ks@[i as int]));
                assert(ks@.take(i + 1) =~= ks@.take(i as int).push(ip));
                assert(!ks@.take(i as int).contains(ip)) by {
                    if ks@.take(i as int).contains(ip) {
                        let j = ks@.take(i as int).index_of(ip);
                        assert(ks@[j] == ks@[i as int]);
                    }
                }
                assert forall|x: IpAddr| ks@.take(i + 1).contains(x) <==> ks@.take(
                    i as int,
                ).contains(x) || x == ip by {
                    lemma_push_contains(ks@.take(i as int), ip, x);
                }
            }
            if let Some(e) = self.requests.get(&ip) {
                if !e.is_stale(now) {
                    n += 1;
                    proof {
                        open = open.push(ip);
                        assert forall|x: IpAddr| open.contains(x) <==> before.contains(x) || x
                            == ip by {
                            lemma_push_contains(before, ip, x);
                        }
                        assert(!before.contains(ip));
                    }
                }
            }
            i += 1;
        }
        proof {
            assert(ks@.take(ks@.len() as int) =~= ks@);
            assert(open.to_set() =~= fresh(self.requests@, now).dom());
            open.unique_seq_to_set();
        }
        n
    }

    /// Check at `now` if a request from the given address would be allowed, without counting it.
    pub fn check_at(&self, addr: IpAddr, now: u128) -> (b: bool)
        ensures
            b == ruling(self.state(), self.limits().0, self.limits().1, addr, now).0,
    {
        let key = rate_limit_key(addr);
        let due = now.saturating_sub(self.last_cleanup) > CLEANUP_INTERVAL_SECS as u128 * 1_000_000_000;
        if let Some(e) = self.requests.get(&key) {
            if !e.is_stale(now) {
                return e.count < self.max_per_window;
            }
            if !due {
                return 0 < self.max_per_window;
            }
        }
        let full = if due {
            self.open_windows(now) >= self.max_tracked_ips
        } else {
            self.requests.has_at_least(self.max_tracked_ips)
        };
        !full && 0 < self.max_per_window
    }

    /// Check if a request from the given address would be allowed, without counting it.
    pub fn check(&self, addr: IpAddr) -> (b: bool)
        ensures
            exists|now: u128|
                self.timer().reads_ns(now) && b == (#[trigger] ruling(
                    self.state(),
                    self.limits().0,
                    self.limits().1,
                    addr,
                    now,
                )).0,
    {
        let now: u128 = self.clock.now_ns();
        self.check_at(addr, now)
    }

    /// Get the request count of an address at `now`.
    pub fn get_count_at(&self, addr: IpAddr, now: u128) -> (n: u32)
        ensures
            n == counted(self.state().requests, addr, now),
    {
        let key = rate_limit_key(addr);
        match self.requests.get(&key) {
            None => 0,
            Some(e) => {
                if e.is_stale(now) {
                    0
                } else {
                    e.count
                }
            },
        }
    }

    /// Get the current request count for an address; 0 if it has no active window.
    pub fn get_count(&self, addr: IpAddr) -> (n: u32)
        ensures
            exists|now: u128|
                self.timer().reads_ns(now) && n == #[trigger] counted(
                    self.state().requests,
                    addr,
                    now,
                ),
    {
        let now: u128 = self.clock.now_ns();
        self.get_count_at(addr, now)
    }

    /// Get the number of tracked addresses.
    pub fn tracked_ips(&self) -> (n: usize)
        requires
            self.wf(),
        ensures
            n == self.state().requests.dom().len(),
    {
        self.requests.len() as usize
    }

    /// Clean up the windows that have ended at `now`.
    pub fn cleanup_at(&mut self, now: u128)
        requires
            old(self).wf(),
        ensures
            final(self).wf(),
            final(self).limits() == old(self).limits(),
            final(self).timer() == old(self).timer(),
            final(self).state() == cleaned(old(self).state(), now),
    {
        proof {
            lemma_fresh_is_within(self.requests@, now);
        }
        self.requests.sweep(now);
    }

    /// Manually clean up expired entries.
    pub fn cleanup(&mut self)
        requires
            old(self).wf(),
        ensures
            final(self).wf(),
            final(self).limits() == old(self).limits(),
            final(self).timer() == old(self).timer(),
            exists|now: u128|
                old(self).timer().reads_ns(now) && final(self).state().requests == #[trigger] fresh(
                    old(self).state().requests,
                    now,
                ),
            final(self).state().last_cleanup == old(self).state().last_cleanup,
    {
        let now: u128 = self.clock.now_ns();
        self.cleanup_at(now);
    }

    fn maybe_cleanup(&mut self, now: u128)
        requires
            old(self).wf(),
        ensures
            final(self).wf(),
            final(self).limits() == old(self).limits(),
            final(self).timer() == old(self).timer(),
            final(self).state() == tidied(old(self).state(), now),
    {
        if now.saturating_sub(self.last_cleanup) > CLEANUP_INTERVAL_SECS as u128 * 1_000_000_000 {
            self.last_cleanup = now;
            self.cleanup_at(now);
        }
    }

    /// Reset rate limit for a specific address.
    pub fn reset(&mut self, addr: IpAddr)
        requires
            old(self).wf(),
        ensures
            final(self).wf(),
            final(self).limits() == old(self).limits(),
            final(self).timer() == old(self).timer(),
            final(self).state() == reset_for(old(self).state(), addr),
    {
        let key = rate_limit_key(addr);
        self.requests.remove(&key);
    }

    /// Clear all rate limit entries.
    pub fn clear(&mut self)
        requires
            old(self).wf(),
        ensures
            final(self).wf(),
            final(self).limits() == old(self).limits(),
            final(self).timer() == old(self).timer(),
            final(self).state() == (RateState {
                requests: Map::<IpAddr, RateLimitEntry>::empty(),
                ..old(self).state()
            }),
    {
        self.requests = IpMap::new();
    }
}

impl Default for HandshakeRateLimiter {
    fn default() -> (l: HandshakeRateLimiter)
        ensures
            l.wf(),
            l.limits() == (DEFAULT_MAX_HANDSHAKES_PER_MINUTE, DEFAULT_MAX_TRACKED_IPS),
            l.state().requests == Map::<IpAddr, RateLimitEntry>::empty(),
            l.timer().started(),
            l.timer().reads_ns(l.state().last_cleanup),
    {
        HandshakeRateLimiter::new()
    }
}

/// Sweeping tracks no more addresses than before.
pub proof fn lemma_fresh_is_within(m: Map<IpAddr, RateLimitEntry>, now: u128)
    requires
        m.dom().finite(),
    ensures
        fresh(m, now).dom().finite(),
        fresh(m, now).dom().len() <= m.dom().len(),
{
    assert(fresh(m, now).dom().subset_of(m.dom()));
    vstd::set_lib::lemma_len_subset(fresh(m, now).dom(), m.dom());
}

/// Whatever requests come, no more addresses are tracked than may be.
pub proof fn law_tracking_is_bounded(s: RateState, max: u32, cap: usize, addr: IpAddr, now: u128)
    requires
        within(s, cap),
    ensures
        within(ruling(s, max, cap, addr, now).1, cap),
{
    lemma_fresh_is_within(s.requests, now);
    let m = tidied(s, now).requests;
    let key = bucket_of(addr);
    if m.contains_key(key) {
        assert(m.dom().insert(key) =~= m.dom());
    }
}

/// All addresses of one `/64` network share one limit: a request from one of them counts against
/// every other.
pub proof fn law_one_limit_per_network(s: RateState, max: u32, cap: usize, a: u128, b: u128, now: u128)
    requires
        a / 0x1_0000_0000_0000_0000 == b / 0x1_0000_0000_0000_0000,
    ensures
        ruling(s, max, cap, IpAddr::V6(a), now) == ruling(s, max, cap, IpAddr::V6(b), now),
        counted(s.requests, IpAddr::V6(a), now) == counted(s.requests, IpAddr::V6(b), now),
{
}

/// Addresses of different networks, and different IPv4 addresses, do not affect each other.
pub proof fn law_networks_are_independent(
    s: RateState,
    max: u32,
    cap: usize,
    a: IpAddr,
    b: IpAddr,
    now: u128,
)
    requires
        bucket_of(a) != bucket_of(b),
    ensures
        counted(ruling(s, max, cap, a, now).1.requests, b, now) == counted(s.requests, b, now),
{
}

/// The state after the requests `ts`, each of them from `addr` at its time.
pub open spec fn after_requests(
    s: RateState,
    max: u32,
    cap: usize,
    addr: IpAddr,
    ts: Seq<u128>,
) -> (nat, RateState)
    decreases ts.len(),
{
    if ts.len() == 0 {
        (0, s)
    } else {
        let p = after_requests(s, max, cap, addr, ts.drop_last());
        let r = ruling(p.1, max, cap, addr, ts.last());
        (p.0 + (if r.0 {
            1nat
        } else {
            0nat
        }), r.1)
    }
}

/// Within a window an address gets no more requests through than its limit.
pub proof fn law_at_most_the_limit_per_window(
    s: RateState,
    max: u32,
    cap: usize,
    addr: IpAddr,
    ts: Seq<u128>,
)
    requires
        s.requests.contains_key(bucket_of(addr)),
        s.requests[bucket_of(addr)].count <= max,
        forall|i: int|
            0 <= i < ts.len() ==> !ended(s.requests[bucket_of(addr)], #[trigger] ts[i]),
    ensures
        after_requests(s, max, cap, addr, ts).0 + s.requests[bucket_of(addr)].count <= max,
        after_requests(s, max, cap, addr, ts).1.requests.contains_key(bucket_of(addr)),
        after_requests(s, max, cap, addr, ts).1.requests[bucket_of(addr)].count
            == after_requests(s, max, cap, addr, ts).0 + s.requests[bucket_of(addr)].count,
        after_requests(s, max, cap, addr, ts).1.requests[bucket_of(addr)].window_start
            == s.requests[bucket_of(addr)].window_start,
    decreases ts.len(),
{
    if ts.len() > 0 {
        let prior = ts.drop_last();
        assert forall|i: int| 0 <= i < prior.len() implies !ended(
            s.requests[bucket_of(addr)],
            #[trigger] prior[i],
        ) by {
            assert(prior[i] == ts[i]);
        }
        law_at_most_the_limit_per_window(s, max, cap, addr, prior);
        assert(!ended(s.requests[bucket_of(addr)], ts[ts.len() - 1]));
    }
}

/// A limit of zero lets nothing through, however long ago the last request was.
pub proof fn law_a_limit_of_zero_refuses_all(s: RateState, cap: usize, addr: IpAddr, now: u128)
    ensures
        !ruling(s, 0, cap, addr, now).0,
{
}

/// An address that was refused may try again in a new window: once a minute is over, its count
/// begins anew with this request.
pub proof fn law_a_new_window_begins_anew(s: RateState, max: u32, cap: usize, addr: IpAddr, now: u128)
    requires
        max > 0,
        within(s, cap),
        s.requests.contains_key(bucket_of(addr)),
        now > s.requests[bucket_of(addr)].window_start + 60_000_000_000,
    ensures
        ruling(s, max, cap, addr, now).0,
        ruling(s, max, cap, addr, now).1.requests[bucket_of(addr)].count == 1,
        ruling(s, max, cap, addr, now).1.requests[bucket_of(addr)].window_start == now,
        counted(s.requests, addr, now) == 0,
{
    let key = bucket_of(addr);
    let kept = fresh(s.requests, now).dom();
    assert(kept.subset_of(s.requests.dom().remove(key)));
    vstd::set_lib::lemma_len_subset(kept, s.requests.dom().remove(key));
}

/// Within its minute an address gets as many requests through as its limit says: one more is let
/// through and counted exactly while the count is below it.
pub proof fn law_requests_are_counted(s: RateState, max: u32, cap: usize, addr: IpAddr, now: u128)
    requires
        s.requests.contains_key(bucket_of(addr)),
        now <= s.requests[bucket_of(addr)].window_start + 60_000_000_000,
    ensures
        ({
            let before = s.requests[bucket_of(addr)];
            let r = ruling(s, max, cap, addr, now);
            &&& r.0 <==> before.count < max
            &&& r.1.requests[bucket_of(addr)].count == before.count + (if before.count < max {
                1int
            } else {
                0int
            })
            &&& r.1.requests[bucket_of(addr)].window_start == before.window_start
            &&& counted(s.requests, addr, now) == before.count
        }),
{
}

/// A new address is let through as long as there is room for it, and refused where there is none.
pub proof fn law_new_addresses_need_room(s: RateState, max: u32, cap: usize, addr: IpAddr, now: u128)
    requires
        !s.requests.contains_key(bucket_of(addr)),
        within(s, cap),
    ensures
        max > 0 && s.requests.dom().len() < cap ==> ruling(s, max, cap, addr, now).0 && ruling(
            s,
            max,
            cap,
            addr,
            now,
        ).1.requests[bucket_of(addr)] == (RateLimitEntry { count: 1, window_start: now }),
        s.requests.dom().len() >= cap && now <= s.last_cleanup + 300_000_000_000 ==> !ruling(
            s,
            max,
            cap,
            addr,
            now,
        ).0 && ruling(s, max, cap, addr, now).1 == s,
        counted(s.requests, addr, now) == 0,
{
    lemma_fresh_is_within(s.requests, now);
}

/// The cleanup, due after five minutes, takes away exactly the windows that have ended; requests
/// in between take away none.
pub proof fn law_cleanup_takes_ended_windows(
    s: RateState,
    max: u32,
    cap: usize,
    addr: IpAddr,
    other: IpAddr,
    now: u128,
)
    requires
        other != bucket_of(addr),
        s.requests.contains_key(other),
    ensures
        ({
            let r = ruling(s, max, cap, addr, now).1;
            let due = now > s.last_cleanup + 300_000_000_000;
            let over = now > s.requests[other].window_start + 60_000_000_000;
            &&& r.requests.contains_key(other) <==> !(due && over)
            &&& r.requests.contains_key(other) ==> r.requests[other] == s.requests[other]
            &&& r.last_cleanup == (if due {
                now
            } else {
                s.last_cleanup
            })
        }),
{
}

/// Different IPv4 addresses have limits of their own, and so do different `/64` networks.
pub proof fn law_networks_are_told_apart(a: u32, b: u32, x: u128, y: u128)
    requires
        a != b,
        x / 0x1_0000_0000_0000_0000 != y / 0x1_0000_0000_0000_0000,
    ensures
        bucket_of(IpAddr::V4(a)) != bucket_of(IpAddr::V4(b)),
        bucket_of(IpAddr::V6(x)) != bucket_of(IpAddr::V6(y)),
        bucket_of(IpAddr::V4(a)) != bucket_of(IpAddr::V6(x)),
{
}

/// After a reset an address has all its requests again, whatever it had sent, and so has its whole
/// network; every other keeps its count.
pub proof fn law_a_reset_gives_all_requests_back(
    s: RateState,
    max: u32,
    cap: usize,
    addr: IpAddr,
    other: IpAddr,
    now: u128,
)
    requires
        within(s, cap),
        max > 0,
        cap > 0,
        s.requests.contains_key(bucket_of(addr)),
    ensures
        counted(reset_for(s, addr).requests, addr, now) == 0,
        ruling(reset_for(s, addr), max, cap, addr, now).0,
        ruling(reset_for(s, addr), max, cap, addr, now).1.requests[bucket_of(addr)].count == 1,
        bucket_of(other) != bucket_of(addr) ==> counted(reset_for(s, addr).requests, other, now)
            == counted(s.requests, other, now),
        reset_for(s, addr).last_cleanup == s.last_cleanup,
{
    let r = reset_for(s, addr);
    lemma_fresh_is_within(r.requests, now);
}

/// Cleaning up by hand takes away exactly the windows that have ended, which changes no count.
pub proof fn law_cleaning_up_changes_no_count(s: RateState, addr: IpAddr, key: IpAddr, now: u128)
    ensures
        counted(cleaned(s, now).requests, addr, now) == counted(s.requests, addr, now),
        s.requests.contains_key(key) ==> (cleaned(s, now).requests.contains_key(key) <==> now
            <= s.requests[key].window_start + 60_000_000_000),
        cleaned(s, now).requests.contains_key(key) ==> s.requests.contains_key(key) && cleaned(
            s,
            now,
        ).requests[key] == s.requests[key],
        cleaned(s, now).last_cleanup == s.last_cleanup,
{
}

} // verus!
