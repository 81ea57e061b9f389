//! Anti-replay cache for handshake `client_random` values.
//!
//! A client draws 32 fresh random bytes for every handshake. A handshake whose bytes were seen a
//! short while ago is a replay and is turned away before any expensive work.

use crate::be::{be_value, from_be, lemma_be_value_bound, lemma_be_value_injective};
use crate::pair_map::PairMap;
use crate::relay::rate_limiter::monus;
use crate::time::{Clock, Duration};
use vstd::prelude::*;

verus! {

/// Default time, in seconds, that a value is remembered.
pub const DEFAULT_TTL_SECS: u64 = 60;

/// Default number of values above which old ones are looked for.
pub const DEFAULT_MAX_ENTRIES: usize = 262_144;

/// The values seen within the time to live.
pub open spec fn live(m: Map<(u128, u128), u128>, ttl_ns: int, now: u128) -> Map<(u128, u128), u128> {
    Map::new(
        |k: (u128, u128)| m.contains_key(k) && monus(now as nat, m[k] as nat) < ttl_ns,
        |k: (u128, u128)| m[k],
    )
}

/// Ten percent above `max`.
pub open spec fn hard_cap(max: usize) -> usize {
    if max + max / 10 <= usize::MAX {
        (max + max / 10) as usize
    } else {
        usize::MAX
    }
}

/// Whether a value is fresh at `now`, and what is remembered afterwards. At `max` values the old
/// ones go first; a value that is then still remembered is a replay; at ten percent above `max`
/// a new value is refused rather than forgotten.
pub open spec fn freshness(
    m: Map<(u128, u128), u128>,
    ttl_ns: int,
    max: usize,
    k: (u128, u128),
    now: u128,
) -> (bool, Map<(u128, u128), u128>) {
    let m2 = if m.dom().len() >= max {
        live(m, ttl_ns, now)
    } else {
        m
    };
    if m2.contains_key(k) && monus(now as nat, m2[k] as nat) < ttl_ns {
        (false, m2)
    } else if m2.dom().len() >= hard_cap(max) && !m2.contains_key(k) {
        (false, m2)
    } else {
        (true, m2.insert(k, now))
    }
}

/// The two halves of 32 bytes.
pub open spec fn halves(r: Seq<u8>) -> (u128, u128) {
    (be_value(r.take(16)) as u128, be_value(r.skip(16)) as u128)
}

/// Anti-replay cache for `client_random` values.
pub struct HandshakeReplayCache {
    entries: PairMap,
    ttl: Duration,
    max_entries: usize,
    clock: Clock,
}

fn half(r: &[u8; 32], from: usize) -> (n: u128)
    requires
        from == 0 || from == 16,
    ensures
        n == be_value(r@.subrange(from as int, from + 16)),
{
    let mut v: Vec<u8> = Vec::new();
    let mut i: usize = 0;
    while i < 16
        invariant
            i <= 16,
            from == 0 || from == 16,
            v@ == r@.subrange(from as int, from + i),
        decreases 16 - i,
    {
        v.push(r[from + i]);
        proof {
            assert(r@.subrange(from as int, from + i + 1) =~= r@.subrange(
                from as int,
                from + i,
            ).push(r@[from + i]));
        }
        i += 1;
    }
    from_be(&v)
}

impl HandshakeReplayCache {
    /// What is remembered.
    pub closed spec fn seen(self) -> Map<(u128, u128), u128> {
        self.entries@
    }

    /// How long, and from how many values on old ones are looked for.
    pub closed spec fn params(self) -> (Duration, usize) {
        (self.ttl, self.max_entries)
    }

    /// The clock of the times.
    pub closed spec fn timer(self) -> Clock {
        self.clock
    }

    /// The count of values is right.
    pub closed spec fn wf(self) -> bool {
        self.entries.wf()
    }

    /// Build a new cache with default parameters.
    pub fn new() -> (c: HandshakeReplayCache)
        ensures
            c.wf(),
            c.seen() == Map::<(u128, u128), u128>::empty(),
            c.timer().started(),
            c.params() == (Duration { secs: DEFAULT_TTL_SECS, nanos: 0 }, DEFAULT_MAX_ENTRIES),
    {
        Self::with_params(Duration::from_secs(DEFAULT_TTL_SECS), DEFAULT_MAX_ENTRIES)
    }

    /// Build a new cache with custom parameters.
    pub fn with_params(ttl: Duration, max_entries: usize) -> (c: HandshakeReplayCache)
        ensures
            c.wf(),
            c.seen() == Map::<(u128, u128), u128>::empty(),
            c.timer().started(),
            c.params() == (ttl, max_entries),
    {
        HandshakeReplayCache { entries: PairMap::new(), ttl, max_entries, clock: Clock::start() }
    }

    fn sweep(&mut self, now: u128)
        requires
            old(self).wf(),
        ensures
            final(self).wf(),
            final(self).params() == old(self).params(),
            final(self).timer() == old(self).timer(),
            final(self).clock == old(self).clock,
            final(self).seen() == live(old(self).seen(), old(self).params().0.nanoseconds(), now),
    {
        let ghost m0 = self.seen();
        let ttl: u128 = self.ttl.as_nanos();
        let ks = self.entries.keys();
        let mut i: usize = 0;
        while i < ks.len()
            invariant
                i <= ks@.len(),
                self.wf(),
                self.params() == old(self).params(),
                self.clock == old(self).clock,
                ttl == self.params().0.nanoseconds(),
                m0 == old(self).seen(),
                forall|k: (u128, u128)| m0.contains_key(k) <==> #[trigger] ks@.contains(k),
                forall|k: (u128, u128)| #[trigger]
                    self.seen().contains_key(k) ==> m0.contains_key(k) && self.seen()[k] == m0[k],
                forall|k: (u128, u128)| #[trigger]
                    m0.contains_key(k) && monus(now as nat, m0[k] as nat) < ttl
                        ==> self.seen().contains_key(k),
                forall|j: int|
                    0 <= j < i && self.seen().contains_key(#[trigger] ks@[j]) ==> monus(
                        now as nat,
                        m0[ks@[j]] as nat,
                    ) < ttl,
            decreases ks@.len() - i,
        {
            let k = ks[i];
            assert(ks@.contains(k));
            let stale = match self.entries.get(&k) {
                Some(t) => now.saturating_sub(t) >= ttl,
                None => false,
            };
            let ghost prior = self.seen();
            if stale {
                self.entries.remove(&k);
            }
            proof {
                assert forall|q: (u128, u128)| #[trigger] self.seen().contains_key(
                    q,
                ) implies prior.contains_key(q) && self.seen()[q] == prior[q] by {}
            }
            i += 1;
        }
        proof {
            let r = live(m0, ttl as int, now);
            assert forall|k: (u128, u128)| self.seen().dom().contains(k) <==> r.dom().contains(k) by {
                if self.seen().contains_key(k) {
                    assert(ks@.contains(k));
                    let j: int = choose|j: int| 0 <= j < ks@.len() && ks@[j] == k;
                    assert(self.seen().contains_key(ks@[j]));
                }
                if r.dom().contains(k) {
                    assert(m0.contains_key(k));
                }
            }
            assert forall|k: (u128, u128)| #[trigger] self.seen().contains_key(k) implies self.seen()[k]
                == r[k] by {
                assert(r.dom().contains(k));
            }
            assert(self.seen() =~= r);
        }
    }

    /// Check at `now`, in nanoseconds, whether the value has been seen within the time to live,
    /// and remember it when not. Returns `true` when it is fresh.
    pub fn check_and_insert_at(&mut self, client_random: &[u8; 32], now: u128) -> (is_fresh: bool)
        requires
            old(self).wf(),
        ensures
            final(self).wf(),
            final(self).params() == old(self).params(),
            final(self).timer() == old(self).timer(),
            (is_fresh, final(self).seen()) == freshness(
                old(self).seen(),
                old(self).params().0.nanoseconds(),
                old(self).params().1,
                halves(client_random@),
                now,
            ),
    {
        let k = (half(client_random, 0), half(client_random, 16));
        proof {
            assert(client_random@.subrange(0, 16) =~= client_random@.take(16));
            assert(client_random@.subrange(16, 32) =~= client_random@.skip(16));
        }
        if self.entries.len() >= self.max_entries {
            self.sweep(now);
        }
        let known = self.entries.get(&k);
        if let Some(t) = known {
            if now.saturating_sub(t) < self.ttl.as_nanos() {
                return false;
            }
        }
        let cap: usize = self.max_entries.saturating_add(self.max_entries / 10);
        if self.entries.len() >= cap && known.is_none() {
            return false;
        }
        self.entries.insert(k, now);
        true
    }

    /// Check whether the value has been seen within the time to live, and remember it when not.
    ///
    /// Returns `true` when the value is fresh (handshake should proceed), `false` when the
    /// handshake should be dropped without further work.
    pub fn check_and_insert(&mut self, client_random: &[u8; 32]) -> (is_fresh: bool)
        requires
            old(self).wf(),
        ensures
            final(self).wf(),
            final(self).params() == old(self).params(),
            final(self).timer() == old(self).timer(),
            exists|now: u128|
                old(self).timer().reads_ns(now) && (is_fresh, final(self).seen()) == #[trigger] freshness(
                    old(self).seen(),
                    old(self).params().0.nanoseconds(),
                    old(self).params().1,
                    halves(client_random@),
                    now,
                ),
    {
        let now: u128 = self.clock.now_ns();
        self.check_and_insert_at(client_random, now)
    }

    /// Number of entries currently tracked.
    pub fn len(&self) -> (n: usize)
        requires
            self.wf(),
        ensures
            n == self.seen().dom().len(),
    {
        self.entries.len()
    }

    /// Whether the cache is empty.
    pub fn is_empty(&self) -> (b: bool)
        requires
            self.wf(),
        ensures
            b == (self.seen().dom().len() == 0),
    {
        self.entries.len() == 0
    }

    /// Force-drop all entries.
    pub fn clear(&mut self)
        ensures
            final(self).wf(),
            final(self).params() == old(self).params(),
            final(self).timer() == old(self).timer(),
            final(self).seen() == Map::<(u128, u128), u128>::empty(),
    {
        self.entries = PairMap::new();
    }
}

impl Default for HandshakeReplayCache {
    fn default() -> (c: HandshakeReplayCache)
        ensures
            c.wf(),
            c.seen() == Map::<(u128, u128), u128>::empty(),
            c.timer().started(),
            c.params() == (Duration { secs: DEFAULT_TTL_SECS, nanos: 0 }, DEFAULT_MAX_ENTRIES),
    {
        HandshakeReplayCache::new()
    }
}

/// A value that was accepted is refused until its time to live is over, whatever other values
/// come in between; and other values leave it alone.
pub proof fn law_replays_are_refused(
    m: Map<(u128, u128), u128>,
    ttl_ns: int,
    max: usize,
    k: (u128, u128),
    other: (u128, u128),
    now: u128,
    later: u128,
)
    requires
        m.contains_key(k),
        monus(now as nat, m[k] as nat) < ttl_ns,
        now <= later,
        monus(later as nat, m[k] as nat) < ttl_ns,
        other != k,
    ensures
        !freshness(m, ttl_ns, max, k, now).0,
        freshness(m, ttl_ns, max, other, now).1.contains_key(k),
        freshness(m, ttl_ns, max, other, now).1[k] == m[k],
        !freshness(freshness(m, ttl_ns, max, other, now).1, ttl_ns, max, k, later).0,
{
}

/// Different values are never taken for each other.
pub proof fn law_distinct_values_are_told_apart(a: Seq<u8>, b: Seq<u8>)
    requires
        a.len() == 32,
        b.len() == 32,
        a != b,
    ensures
        halves(a) != halves(b),
{
    if halves(a) == halves(b) {
        lemma_be_value_bound(a.take(16));
        lemma_be_value_bound(a.skip(16));
        lemma_be_value_bound(b.take(16));
        lemma_be_value_bound(b.skip(16));
        lemma_be_value_injective(a.take(16), b.take(16));
        lemma_be_value_injective(a.skip(16), b.skip(16));
        assert(a =~= a.take(16) + a.skip(16));
        assert(b =~= b.take(16) + b.skip(16));
    }
}

/// What is accepted is remembered from then on.
pub proof fn law_accepted_values_are_remembered(
    m: Map<(u128, u128), u128>,
    ttl_ns: int,
    max: usize,
    k: (u128, u128),
    now: u128,
)
    requires
        freshness(m, ttl_ns, max, k, now).0,
    ensures
        freshness(m, ttl_ns, max, k, now).1.contains_key(k),
        freshness(m, ttl_ns, max, k, now).1[k] == now,
{
}

/// The cache never grows beyond ten percent above its size: then it refuses what is new.
pub proof fn law_cache_is_bounded(
    m: Map<(u128, u128), u128>,
    ttl_ns: int,
    max: usize,
    k: (u128, u128),
    now: u128,
)
    requires
        m.dom().finite(),
        m.dom().len() <= hard_cap(max),
    ensures
        freshness(m, ttl_ns, max, k, now).1.dom().len() <= hard_cap(max),
{
    let m2 = if m.dom().len() >= max {
        live(m, ttl_ns, now)
    } else {
        m
    };
    assert(m2.dom().subset_of(m.dom()));
    vstd::set_lib::lemma_len_subset(m2.dom(), m.dom());
    if m2.contains_key(k) {
        assert(m2.insert(k, now).dom() =~= m2.dom());
    }
}

/// A value may come again once its time to live is over.
pub proof fn law_values_are_forgotten_in_time(
    m: Map<(u128, u128), u128>,
    ttl_ns: int,
    max: usize,
    k: (u128, u128),
    now: u128,
)
    requires
        m.dom().finite(),
        m.dom().len() <= hard_cap(max),
        m.contains_key(k),
        now >= m[k],
        now - m[k] >= ttl_ns,
    ensures
        freshness(m, ttl_ns, max, k, now).0,
        freshness(m, ttl_ns, max, k, now).1[k] == now,
{
    let kept = live(m, ttl_ns, now).dom();
    assert(kept.subset_of(m.dom().remove(k)));
    vstd::set_lib::lemma_len_subset(kept, m.dom().remove(k));
}

/// A value that was not seen before is fresh, as long as there is room or the old values have had
/// their time.
pub proof fn law_new_values_are_fresh(
    m: Map<(u128, u128), u128>,
    ttl_ns: int,
    max: usize,
    k: (u128, u128),
    now: u128,
)
    requires
        !m.contains_key(k),
        max > 0,
        m.dom().len() < max || forall|j: (u128, u128)| #[trigger]
            m.contains_key(j) ==> now >= m[j] && now - m[j] >= ttl_ns,
    ensures
        freshness(m, ttl_ns, max, k, now).0,
        freshness(m, ttl_ns, max, k, now).1[k] == now,
{
    if m.dom().len() >= max {
        assert(live(m, ttl_ns, now).dom() =~= Set::<(u128, u128)>::empty());
    }
}

/// No value is forgotten before its time to live is over, nor while there is room.
pub proof fn law_nothing_is_forgotten_early(
    m: Map<(u128, u128), u128>,
    ttl_ns: int,
    max: usize,
    k: (u128, u128),
    other: (u128, u128),
    now: u128,
)
    requires
        m.contains_key(other),
        m.dom().len() < max || now < m[other] + ttl_ns,
        ttl_ns > 0,
    ensures
        freshness(m, ttl_ns, max, k, now).1.contains_key(other),
        other != k ==> freshness(m, ttl_ns, max, k, now).1[other] == m[other],
{
}

/// Where all the room is taken by values that still have their time, a new one is refused.
pub proof fn law_a_full_cache_refuses(
    m: Map<(u128, u128), u128>,
    ttl_ns: int,
    max: usize,
    k: (u128, u128),
    now: u128,
)
    requires
        !m.contains_key(k),
        m.dom().len() >= max + max / 10,
        ttl_ns > 0,
        forall|j: (u128, u128)| #[trigger] m.contains_key(j) ==> now < m[j] + ttl_ns,
    ensures
        !freshness(m, ttl_ns, max, k, now).0,
        freshness(m, ttl_ns, max, k, now).1 == m,
{
    assert(live(m, ttl_ns, now) =~= m);
}

/// A cache holds ten percent more values than it is made for before it refuses new ones.
pub proof fn law_there_is_room_to_spare(max: usize)
    requires
        max + max / 10 <= usize::MAX,
    ensures
        hard_cap(max) * 10 <= max * 11,
        hard_cap(max) * 10 + 10 > max * 11,
{
}

} // verus!
