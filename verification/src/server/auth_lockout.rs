//! Authentication lockout tracker.
//!
//! Three independent throttles hold on every authentication attempt: on the pair of user name
//! and address, on the address over all names, and on the name once many attempts came from many
//! addresses. A single attacker therefore cannot lock a name for everyone.

use crate::assoc::{AssocMap, Key};
use crate::ip_map::IpMap;
use crate::net::IpAddr;
use crate::relay::metrics::bumped;
use crate::relay::rate_limiter::monus;
use crate::text::same_text;
use crate::time::{now_secs, reads_wall_secs};
use vstd::prelude::*;

verus! {

/// How long, in seconds, a failure of a pair of name and address counts.
pub const TUPLE_WINDOW_SECS: u64 = 3600;

/// Length of the window of an address, in seconds.
pub const IP_WINDOW_SECS: u64 = 3600;

/// Kind of lockout that fired, for metrics / logging.
#[derive(Clone, Copy, Debug, PartialEq, Eq, Structural)]
pub enum LockoutKind {
    /// The (username, ip) tuple exhausted its attempt budget.
    Tuple,
    /// The source IP exhausted its cross-username attempt budget.
    Ip,
    /// The username was globally locked due to a distributed attack.
    UsernameSpread,
}

impl LockoutKind {
    /// The word for a kind.
    pub fn as_str(self) -> (s: &'static str)
        ensures
            s@ == match self {
                LockoutKind::Tuple => "tuple"@,
                LockoutKind::Ip => "ip"@,
                LockoutKind::UsernameSpread => "username_spread"@,
            },
    {
        match self {
            LockoutKind::Tuple => "tuple",
            LockoutKind::Ip => "ip",
            LockoutKind::UsernameSpread => "username_spread",
        }
    }
}

/// Thresholds.
#[derive(Clone, Copy, Debug, PartialEq, Eq, Structural)]
pub struct LockoutPolicy {
    /// Per-(username, ip) attempt count in one hour before lockout.
    pub tuple_max_attempts: u32,
    /// Lockout duration (secs) for a (username, ip) tuple.
    pub tuple_lockout_secs: u64,
    /// Per-ip attempt count (all usernames) before IP ban.
    pub ip_max_attempts: u32,
    /// Ban duration (secs) for an IP.
    pub ip_ban_secs: u64,
    /// Minimum total failed attempts required to trigger a global username lock.
    pub username_min_attempts: u32,
    /// Minimum distinct source IPs required to trigger a global username lock.
    pub username_spread_min_ips: u32,
    /// Rolling window (secs) for the username spread count.
    pub username_window_secs: u64,
    /// Global username lock duration (secs).
    pub username_lock_secs: u64,
    /// Maximum tracked entries per map.
    pub max_entries: usize,
}

impl LockoutPolicy {
    /// Production defaults.
    pub open spec fn standard() -> LockoutPolicy {
        LockoutPolicy {
            tuple_max_attempts: 10,
            tuple_lockout_secs: 3600,
            ip_max_attempts: 100,
            ip_ban_secs: 3600,
            username_min_attempts: 20,
            username_spread_min_ips: 5,
            username_window_secs: 86400,
            username_lock_secs: 3600,
            max_entries: 100_000,
        }
    }

    /// Production defaults.
    pub fn production() -> (p: LockoutPolicy)
        ensures
            p == LockoutPolicy::standard(),
    {
        LockoutPolicy {
            tuple_max_attempts: 10,
            tuple_lockout_secs: 3600,
            ip_max_attempts: 100,
            ip_ban_secs: 3600,
            username_min_attempts: 20,
            username_spread_min_ips: 5,
            username_window_secs: 86400,
            username_lock_secs: 3600,
            max_entries: 100_000,
        }
    }
}

impl Default for LockoutPolicy {
    fn default() -> (p: LockoutPolicy)
        ensures
            p == LockoutPolicy::standard(),
    {
        LockoutPolicy::production()
    }
}

/// Failures of one name from one address.
pub struct TupleEntry {
    /// When the last failures since the last lockout came, in order; no more than the threshold.
    pub failures: Vec<u64>,
    pub locked_until: u64,
    pub last_access: u64,
}

/// What is known of a pair, with its failures as a sequence.
#[verifier::ext_equal]
pub struct PairRecord {
    pub failures: Seq<u64>,
    pub locked_until: u64,
    pub last_access: u64,
}

impl View for TupleEntry {
    type V = PairRecord;

    open spec fn view(&self) -> PairRecord {
        PairRecord {
            failures: self.failures@,
            locked_until: self.locked_until,
            last_access: self.last_access,
        }
    }
}

/// Failures from one address.
#[derive(Clone, Copy, Debug, PartialEq, Eq, Structural)]
pub struct IpEntry {
    pub failed_attempts_hour: u32,
    pub window_start: u64,
    pub banned_until: u64,
    pub last_access: u64,
}

/// Failures of one name.
pub struct UsernameEntry {
    /// Distinct addresses seen failing in the current window.
    pub ips: IpMap<()>,
    pub total_attempts_window: u32,
    pub window_start: u64,
    pub locked_until: u64,
    pub last_access: u64,
}

/// What is known of a name, with its addresses as a set.
#[verifier::ext_equal]
pub struct NameRecord {
    pub ips: Set<IpAddr>,
    pub total_attempts_window: u32,
    pub window_start: u64,
    pub locked_until: u64,
    pub last_access: u64,
}

impl View for UsernameEntry {
    type V = NameRecord;

    open spec fn view(&self) -> NameRecord {
        NameRecord {
            ips: self.ips@.dom(),
            total_attempts_window: self.total_attempts_window,
            window_start: self.window_start,
            locked_until: self.locked_until,
            last_access: self.last_access,
        }
    }
}

/// Counters of lockouts.
#[derive(Debug, Clone, Copy, PartialEq, Eq, Structural)]
pub struct LockoutMetricsSnapshot {
    pub tuple_lockouts: u64,
    pub ip_bans: u64,
    pub username_locks: u64,
}

impl Default for LockoutMetricsSnapshot {
    fn default() -> (s: LockoutMetricsSnapshot)
        ensures
            s == (LockoutMetricsSnapshot { tuple_lockouts: 0, ip_bans: 0, username_locks: 0 }),
    {
        LockoutMetricsSnapshot { tuple_lockouts: 0, ip_bans: 0, username_locks: 0 }
    }
}

/// A user name with an address.
pub struct TupleKey {
    pub name: String,
    pub ip: IpAddr,
}

impl View for TupleKey {
    type V = (Seq<char>, IpAddr);

    open spec fn view(&self) -> (Seq<char>, IpAddr) {
        (self.name@, self.ip)
    }
}

impl Key for TupleKey {
    fn same(&self, other: &Self) -> (b: bool) {
        self.ip == other.ip && same_text(self.name.as_str(), other.name.as_str())
    }
}

/// A user name.
pub struct NameKey {
    pub name: String,
}

impl View for NameKey {
    type V = Seq<char>;

    open spec fn view(&self) -> Seq<char> {
        self.name@
    }
}

impl Key for NameKey {
    fn same(&self, other: &Self) -> (b: bool) {
        same_text(self.name.as_str(), other.name.as_str())
    }
}

/// `a + b`, at most the largest number.
pub open spec fn plus_capped(a: u64, b: u64) -> u64 {
    if a + b <= u64::MAX {
        (a + b) as u64
    } else {
        u64::MAX
    }
}

/// One more, at most the largest number.
pub open spec fn one_more(n: u32) -> u32 {
    if n < u32::MAX {
        (n + 1) as u32
    } else {
        n
    }
}

/// Everything that the tracker knows.
#[verifier::ext_equal]
pub struct LockoutState {
    pub tuples: Map<(Seq<char>, IpAddr), PairRecord>,
    pub ips: Map<IpAddr, IpEntry>,
    pub names: Map<Seq<char>, NameRecord>,
    pub metrics: LockoutMetricsSnapshot,
}

/// Why an attempt is refused at `now`, if it is: first a banned address, then a locked pair, then
/// a locked name.
pub open spec fn refusal(s: LockoutState, name: Seq<char>, ip: IpAddr, now: u64) -> Option<
    LockoutKind,
> {
    if s.ips.contains_key(ip) && s.ips[ip].banned_until > now {
        Some(LockoutKind::Ip)
    } else if s.tuples.contains_key((name, ip)) && s.tuples[(name, ip)].locked_until > now {
        Some(LockoutKind::Tuple)
    } else if s.names.contains_key(name) && s.names[name].locked_until > now {
        Some(LockoutKind::UsernameSpread)
    } else {
        None
    }
}

/// What is known after a success: the pair is cleared, everything else stays.
pub open spec fn cleared(s: LockoutState, name: Seq<char>, ip: IpAddr) -> LockoutState {
    LockoutState { tuples: s.tuples.remove((name, ip)), ..s }
}

/// When an entry was last used.
pub open spec fn tuple_age() -> spec_fn(PairRecord) -> u64 {
    |e: PairRecord| e.last_access
}

/// When an entry was last used.
pub open spec fn ip_age() -> spec_fn(IpEntry) -> u64 {
    |e: IpEntry| e.last_access
}

/// When an entry was last used.
pub open spec fn name_age() -> spec_fn(NameRecord) -> u64 {
    |e: NameRecord| e.last_access
}

/// Whether `k` is among the entries that were not used for the longest time.
pub open spec fn oldest<K, V>(m: Map<K, V>, age: spec_fn(V) -> u64, k: K) -> bool {
    &&& m.contains_key(k)
    &&& age(m[k]) < u64::MAX
    &&& forall|j: K| #[trigger] m.contains_key(j) ==> age(m[k]) <= age(m[j])
}

/// What is left after room was made: of `cap` or more entries one of the oldest goes. Which of
/// several equally old ones goes is left open.
pub open spec fn evicted<K, V>(
    before: Map<K, V>,
    after: Map<K, V>,
    cap: usize,
    age: spec_fn(V) -> u64,
) -> bool {
    if before.dom().len() < cap || forall|k: K| #[trigger]
        before.contains_key(k) ==> age(before[k]) == u64::MAX {
        after == before
    } else {
        exists|k: K| #[trigger] oldest(before, age, k) && after == before.remove(k)
    }
}

/// What is left before `k` is written: all of it when `k` is known already, else what is left
/// after room was made.
pub open spec fn room_for<K, V>(
    before: Map<K, V>,
    after: Map<K, V>,
    k: K,
    cap: usize,
    age: spec_fn(V) -> u64,
) -> bool {
    if before.contains_key(k) {
        after == before
    } else {
        evicted(before, after, cap, age)
    }
}

/// The last `n` elements, or all where there are fewer.
pub open spec fn latest(s: Seq<u64>, n: nat) -> Seq<u64> {
    if s.len() > n {
        s.skip(s.len() - n)
    } else {
        s
    }
}

/// Whether the last `max` of the failures, the last of which came at `now`, came within an hour.
pub open spec fn too_many(failures: Seq<u64>, max: u32, now: u64) -> bool {
    max == 0 || (failures.len() >= max && monus(
        now as nat,
        failures[failures.len() - max] as nat,
    ) <= TUPLE_WINDOW_SECS)
}

/// A pair after one more failure, and whether that locks it: it does when it is the one too many
/// of an hour and the pair is not locked already.
pub open spec fn tuple_failed(e: Option<PairRecord>, p: LockoutPolicy, now: u64) -> (
    PairRecord,
    bool,
) {
    let e0 = match e {
        Some(x) => x,
        None => PairRecord { failures: Seq::empty(), locked_until: 0, last_access: 0 },
    };
    let failures = e0.failures.push(now);
    if too_many(failures, p.tuple_max_attempts, now) && e0.locked_until <= now {
        (
            PairRecord {
                failures: Seq::empty(),
                locked_until: plus_capped(now, p.tuple_lockout_secs),
                last_access: now,
            },
            true,
        )
    } else {
        (
            PairRecord {
                failures: latest(failures, p.tuple_max_attempts as nat),
                locked_until: e0.locked_until,
                last_access: now,
            },
            false,
        )
    }
}

/// An address after one more failure, and whether that bans it.
pub open spec fn ip_failed(e: Option<IpEntry>, p: LockoutPolicy, now: u64) -> (IpEntry, bool) {
    let e0 = match e {
        Some(x) => x,
        None => IpEntry {
            failed_attempts_hour: 0,
            window_start: 0,
            banned_until: 0,
            last_access: 0,
        },
    };
    let e1 = if monus(now as nat, e0.window_start as nat) > IP_WINDOW_SECS {
        IpEntry { window_start: now, failed_attempts_hour: 0, ..e0 }
    } else {
        e0
    };
    let n = one_more(e1.failed_attempts_hour);
    if n >= p.ip_max_attempts && e1.banned_until <= now {
        (
            IpEntry {
                failed_attempts_hour: 0,
                banned_until: plus_capped(now, p.ip_ban_secs),
                last_access: now,
                ..e1
            },
            true,
        )
    } else {
        (IpEntry { failed_attempts_hour: n, last_access: now, ..e1 }, false)
    }
}

/// A name after one more failure from `ip`, and whether that locks it.
pub open spec fn name_failed(e: Option<NameRecord>, p: LockoutPolicy, ip: IpAddr, now: u64) -> (
    NameRecord,
    bool,
) {
    let e0 = match e {
        Some(x) => x,
        None => NameRecord {
            ips: Set::empty(),
            total_attempts_window: 0,
            window_start: 0,
            locked_until: 0,
            last_access: 0,
        },
    };
    let e1 = if monus(now as nat, e0.window_start as nat) > p.username_window_secs {
        NameRecord { window_start: now, total_attempts_window: 0, ips: Set::empty(), ..e0 }
    } else {
        e0
    };
    let n = one_more(e1.total_attempts_window);
    let ips = e1.ips.insert(ip);
    if n >= p.username_min_attempts && ips.len() >= p.username_spread_min_ips && e1.locked_until
        <= now {
        (
            NameRecord {
                ips: Set::empty(),
                total_attempts_window: 0,
                locked_until: plus_capped(now, p.username_lock_secs),
                last_access: now,
                ..e1
            },
            true,
        )
    } else {
        (NameRecord { ips, total_attempts_window: n, last_access: now, ..e1 }, false)
    }
}

/// The value of a key, if it has one.
pub open spec fn look_up<K, V>(m: Map<K, V>, k: K) -> Option<V> {
    if m.contains_key(k) {
        Some(m[k])
    } else {
        None
    }
}

/// The pairs after one more failure.
pub open spec fn tuple_step(
    before: Map<(Seq<char>, IpAddr), PairRecord>,
    after: Map<(Seq<char>, IpAddr), PairRecord>,
    p: LockoutPolicy,
    name: Seq<char>,
    ip: IpAddr,
    now: u64,
    locked: bool,
) -> bool {
    exists|m: Map<(Seq<char>, IpAddr), PairRecord>| #[trigger]
        room_for(before, m, (name, ip), p.max_entries, tuple_age()) && after == m.insert(
            (name, ip),
            tuple_failed(look_up(m, (name, ip)), p, now).0,
        ) && locked == tuple_failed(look_up(m, (name, ip)), p, now).1
}

/// The addresses after one more failure.
pub open spec fn ip_step(
    before: Map<IpAddr, IpEntry>,
    after: Map<IpAddr, IpEntry>,
    p: LockoutPolicy,
    ip: IpAddr,
    now: u64,
    banned: bool,
) -> bool {
    exists|m: Map<IpAddr, IpEntry>| #[trigger]
        room_for(before, m, ip, p.max_entries, ip_age()) && after == m.insert(
            ip,
            ip_failed(look_up(m, ip), p, now).0,
        ) && banned == ip_failed(look_up(m, ip), p, now).1
}

/// The names after one more failure.
pub open spec fn name_step(
    before: Map<Seq<char>, NameRecord>,
    after: Map<Seq<char>, NameRecord>,
    p: LockoutPolicy,
    name: Seq<char>,
    ip: IpAddr,
    now: u64,
    locked: bool,
) -> bool {
    exists|m: Map<Seq<char>, NameRecord>| #[trigger]
        room_for(before, m, name, p.max_entries, name_age()) && after == m.insert(
            name,
            name_failed(look_up(m, name), p, ip, now).0,
        ) && locked == name_failed(look_up(m, name), p, ip, now).1
}

/// A counter, one higher if `fired`.
pub open spec fn if_fired(n: u64, fired: bool) -> u64 {
    if fired {
        bumped(n, 1)
    } else {
        n
    }
}

/// The kind that is reported of those that fired: the pair before the address before the name.
pub open spec fn reported(tuple: bool, ip: bool, name: bool) -> Option<LockoutKind> {
    if tuple {
        Some(LockoutKind::Tuple)
    } else if ip {
        Some(LockoutKind::Ip)
    } else if name {
        Some(LockoutKind::UsernameSpread)
    } else {
        None
    }
}

/// A failure with given outcomes on the three throttles.
pub open spec fn failure_with(
    before: LockoutState,
    after: LockoutState,
    p: LockoutPolicy,
    name: Seq<char>,
    ip: IpAddr,
    now: u64,
    fired: (bool, bool, bool),
) -> bool {
    &&& tuple_step(before.tuples, after.tuples, p, name, ip, now, fired.0)
    &&& ip_step(before.ips, after.ips, p, ip, now, fired.1)
    &&& name_step(before.names, after.names, p, name, ip, now, fired.2)
    &&& after.metrics == (LockoutMetricsSnapshot {
        tuple_lockouts: if_fired(before.metrics.tuple_lockouts, fired.0),
        ip_bans: if_fired(before.metrics.ip_bans, fired.1),
        username_locks: if_fired(before.metrics.username_locks, fired.2),
    })
}

/// A failure at `now`, and the kind of lockout that is reported.
pub open spec fn failure(
    before: LockoutState,
    after: LockoutState,
    p: LockoutPolicy,
    name: Seq<char>,
    ip: IpAddr,
    now: u64,
    kind: Option<LockoutKind>,
) -> bool {
    exists|fired: (bool, bool, bool)| #[trigger]
        failure_with(before, after, p, name, ip, now, fired) && kind == reported(
            fired.0,
            fired.1,
            fired.2,
        )
}

/// Main tracker.
pub struct AuthLockoutTracker {
    tuples: AssocMap<TupleKey, TupleEntry>,
    ips: IpMap<IpEntry>,
    names: AssocMap<NameKey, UsernameEntry>,
    policy: LockoutPolicy,
    metrics: LockoutMetricsSnapshot,
}

fn add_capped(a: u64, b: u64) -> (r: u64)
    ensures
        r == plus_capped(a, b),
{
    a.saturating_add(b)
}

impl AuthLockoutTracker {
    /// No key occurs twice.
    pub closed spec fn wf(self) -> bool {
        self.tuples.wf() && self.names.wf()
    }

    /// Everything that is known.
    pub closed spec fn state(self) -> LockoutState {
        LockoutState {
            tuples: self.tuples@.map_values(|e: TupleEntry| e@),
            ips: self.ips@,
            names: self.names@.map_values(|e: UsernameEntry| e@),
            metrics: self.metrics,
        }
    }

    /// The thresholds.
    pub closed spec fn thresholds(self) -> LockoutPolicy {
        self.policy
    }

    /// A tracker that knows nothing yet.
    pub fn new(policy: LockoutPolicy) -> (t: AuthLockoutTracker)
        ensures
            t.wf(),
            t.thresholds() == policy,
            t.state() == (LockoutState {
                tuples: Map::empty(),
                ips: Map::empty(),
                names: Map::empty(),
                metrics: LockoutMetricsSnapshot {
                    tuple_lockouts: 0,
                    ip_bans: 0,
                    username_locks: 0,
                },
            }),
    {
        let t = AuthLockoutTracker {
            tuples: AssocMap::new(),
            ips: IpMap::new(),
            names: AssocMap::new(),
            policy,
            metrics: LockoutMetricsSnapshot::default(),
        };
        assert(t.state().tuples =~= Map::empty());
        assert(t.state().names =~= Map::empty());
        t
    }

    /// A tracker with the production thresholds.
    pub fn with_production_defaults() -> (t: AuthLockoutTracker)
        ensures
            t.wf(),
            t.thresholds() == LockoutPolicy::standard(),
            t.state() == (LockoutState {
                tuples: Map::empty(),
                ips: Map::empty(),
                names: Map::empty(),
                metrics: LockoutMetricsSnapshot {
                    tuple_lockouts: 0,
                    ip_bans: 0,
                    username_locks: 0,
                },
            }),
    {
        Self::new(LockoutPolicy::production())
    }

    /// Return `Some(kind)` if an attempt at `now` should be refused due to an active lockout on
    /// any of the three dimensions. `None` means the caller may proceed to verify the password.
    pub fn check_lockout_at(&self, username: &str, ip: IpAddr, now: u64) -> (r: Option<LockoutKind>)
        requires
            self.wf(),
        ensures
            r == refusal(self.state(), username@, ip, now),
    {
        if let Some(e) = self.ips.get(&ip) {
            if e.banned_until > now {
                return Some(LockoutKind::Ip);
            }
        }
        let key = TupleKey { name: String::from_str(username), ip };
        if let Some(e) = self.tuples.get(&key) {
            if e.locked_until > now {
                return Some(LockoutKind::Tuple);
            }
        }
        let name = NameKey { name: String::from_str(username) };
        if let Some(e) = self.names.get(&name) {
            if e.locked_until > now {
                return Some(LockoutKind::UsernameSpread);
            }
        }
        None
    }

    /// Return `Some(kind)` if the attempt should be refused now.
    pub fn check_lockout(&self, username: &str, ip: IpAddr) -> (r: Option<LockoutKind>)
        requires
            self.wf(),
        ensures
            exists|now: u64|
                reads_wall_secs(now) && r == #[trigger] refusal(self.state(), username@, ip, now),
    {
        let now: u64 = now_secs();
        self.check_lockout_at(username, ip, now)
    }

    /// Register a successful authentication: the pair is cleared. What is known of the address
    /// and of the name stays, since one login says nothing about an attack.
    pub fn record_success(&mut self, username: &str, ip: IpAddr)
        requires
            old(self).wf(),
        ensures
            final(self).wf(),
            final(self).thresholds() == old(self).thresholds(),
            final(self).state() == cleared(old(self).state(), username@, ip),
    {
        let key = TupleKey { name: String::from_str(username), ip };
        self.tuples.remove(&key);
        proof {
            assert(self.state().tuples =~= old(self).state().tuples.remove((username@, ip)));
        }
    }

    fn make_room_tuples(&mut self)
        requires
            old(self).wf(),
        ensures
            final(self).wf(),
            final(self).policy == old(self).policy,
            final(self).ips == old(self).ips,
            final(self).names == old(self).names,
            final(self).metrics == old(self).metrics,
            evicted(
                old(self).state().tuples,
                final(self).state().tuples,
                old(self).policy.max_entries,
                tuple_age(),
            ),
    {
        proof {
            assert(self.state().tuples.dom() =~= self.tuples@.dom());
        }
        if self.tuples.len() < self.policy.max_entries {
            return ;
        }
        let n: usize = self.tuples.len();
        let ghost m = self.state().tuples;
        let mut best: Option<usize> = None;
        let mut best_ts: u64 = u64::MAX;
        let mut i: usize = 0;
        proof {
            self.tuples.lemma_slots();
        }
        while i < n
            invariant
                i <= n,
                n == self.tuples.slots().len(),
                best matches Some(b) ==> b < i && self.tuples.slots()[b as int].1.last_access
                    == best_ts && best_ts < u64::MAX,
                best is None ==> best_ts == u64::MAX,
                forall|j: int|
                    0 <= j < i ==> best_ts <= (#[trigger] self.tuples.slots()[j]).1.last_access,
            decreases n - i,
        {
            let ts: u64 = self.tuples.value_at(i).last_access;
            if ts < best_ts {
                best_ts = ts;
                best = Some(i);
            }
            i += 1;
        }
        proof {
            self.tuples.lemma_slots();
            assert forall|k: (Seq<char>, IpAddr)| #[trigger] m.contains_key(k) implies best_ts
                <= m[k].last_access by {
                assert(self.tuples@.contains_key(k));
                let j: int = choose|j: int|
                    0 <= j < self.tuples.slots().len() && (#[trigger] self.tuples.slots()[j]).0 == k;
                assert(self.tuples@.contains_key(self.tuples.slots()[j].0));
            }
        }
        match best {
            Some(b) => {
                let ghost k = self.tuples.slots()[b as int].0;
                proof {
                    assert(self.tuples@.contains_key(k));
                    assert(m.contains_key(k));
                    assert(tuple_age()(m[k]) == best_ts);
                    assert(oldest(m, tuple_age(), k));
                }
                self.tuples.remove_at(b);
                proof {
                    assert(self.state().tuples =~= m.remove(k));
                }
            },
            None => {
                proof {
                    assert forall|k: (Seq<char>, IpAddr)| #[trigger] m.contains_key(k) implies tuple_age()(
                        m[k],
                    ) == u64::MAX by {}
                }
            },
        }
    }

    fn make_room_names(&mut self)
        requires
            old(self).wf(),
        ensures
            final(self).wf(),
            final(self).policy == old(self).policy,
            final(self).ips == old(self).ips,
            final(self).tuples == old(self).tuples,
            final(self).metrics == old(self).metrics,
            evicted(
                old(self).state().names,
                final(self).state().names,
                old(self).policy.max_entries,
                name_age(),
            ),
    {
        proof {
            assert(self.state().names.dom() =~= self.names@.dom());
        }
        if self.names.len() < self.policy.max_entries {
            return ;
        }
        let n: usize = self.names.len();
        let ghost m = self.state().names;
        let mut best: Option<usize> = None;
        let mut best_ts: u64 = u64::MAX;
        let mut i: usize = 0;
        proof {
            self.names.lemma_slots();
        }
        while i < n
            invariant
                i <= n,
                n == self.names.slots().len(),
                best matches Some(b) ==> b < i && self.names.slots()[b as int].1.last_access
                    == best_ts && best_ts < u64::MAX,
                best is None ==> best_ts == u64::MAX,
                forall|j: int|
                    0 <= j < i ==> best_ts <= (#[trigger] self.names.slots()[j]).1.last_access,
            decreases n - i,
        {
            let ts: u64 = self.names.value_at(i).last_access;
            if ts < best_ts {
                best_ts = ts;
                best = Some(i);
            }
            i += 1;
        }
        proof {
            self.names.lemma_slots();
            assert forall|k: Seq<char>| #[trigger] m.contains_key(k) implies best_ts
                <= m[k].last_access by {
                assert(self.names@.contains_key(k));
                let j: int = choose|j: int|
                    0 <= j < self.names.slots().len() && (#[trigger] self.names.slots()[j]).0 == k;
                assert(self.names@.contains_key(self.names.slots()[j].0));
            }
        }
        match best {
            Some(b) => {
                let ghost k = self.names.slots()[b as int].0;
                proof {
                    assert(self.names@.contains_key(k));
                    assert(m.contains_key(k));
                    assert(name_age()(m[k]) == best_ts);
                    assert(oldest(m, name_age(), k));
                }
                self.names.remove_at(b);
                proof {
                    assert(self.state().names =~= m.remove(k));
                }
            },
            None => {
                proof {
                    assert forall|k: Seq<char>| #[trigger] m.contains_key(k) implies name_age()(
                        m[k],
                    ) == u64::MAX by {}
                }
            },
        }
    }

    fn make_room_ips(&mut self)
        requires
            old(self).wf(),
        ensures
            final(self).wf(),
            final(self).policy == old(self).policy,
            final(self).names == old(self).names,
            final(self).tuples == old(self).tuples,
            final(self).metrics == old(self).metrics,
            evicted(old(self).ips@, final(self).ips@, old(self).policy.max_entries, ip_age()),
    {
        if !self.ips.has_at_least(self.policy.max_entries) {
            return ;
        }
        let ghost m = self.ips@;
        let ks = self.ips.keys();
        let mut best: Option<usize> = None;
        let mut best_ts: u64 = u64::MAX;
        let mut i: usize = 0;
        while i < ks.len()
            invariant
                i <= ks@.len(),
                m == self.ips@,
                forall|ip: IpAddr| m.contains_key(ip) <==> #[trigger] ks@.contains(ip),
                best matches Some(b) ==> b < i && m.contains_key(ks@[b as int])
                    && m[ks@[b as int]].last_access == best_ts && best_ts < u64::MAX,
                best is None ==> best_ts == u64::MAX,
                forall|j: int|
                    0 <= j < i ==> best_ts <= m[#[trigger] ks@[j]].last_access,
            decreases ks@.len() - i,
        {
            assert(ks@.contains(ks@[i as int]));
            let ip = ks[i];
            if let Some(e) = self.ips.get(&ip) {
                if e.last_access < best_ts {
                    best_ts = e.last_access;
                    best = Some(i);
                }
            }
            i += 1;
        }
        proof {
            assert forall|k: IpAddr| #[trigger] m.contains_key(k) implies best_ts
                <= m[k].last_access by {
                assert(ks@.contains(k));
                let j: int = choose|j: int| 0 <= j < ks@.len() && ks@[j] == k;
                assert(best_ts <= m[ks@[j]].last_access);
            }
        }
        match best {
            Some(b) => {
                let k = ks[b];
                proof {
                    assert(ip_age()(m[k]) == best_ts);
                    assert(oldest(m, ip_age(), k));
                }
                self.ips.remove(&k);
            },
            None => {
                proof {
                    assert forall|k: IpAddr| #[trigger] m.contains_key(k) implies ip_age()(m[k])
                        == u64::MAX by {}
                }
            },
        }
    }

    fn fail_tuple(&mut self, username: &str, ip: IpAddr, now: u64) -> (locked: bool)
        requires
            old(self).wf(),
        ensures
            final(self).wf(),
            final(self).policy == old(self).policy,
            final(self).ips == old(self).ips,
            final(self).names == old(self).names,
            final(self).metrics == old(self).metrics,
            tuple_step(
                old(self).state().tuples,
                final(self).state().tuples,
                old(self).policy,
                username@,
                ip,
                now,
                locked,
            ),
    {
        let key = TupleKey { name: String::from_str(username), ip };
        if self.tuples.get(&key).is_none() {
            self.make_room_tuples();
        }
        let ghost m = self.state().tuples;
        let ghost raw = self.tuples@;
        let known = self.tuples.remove(&key);
        let ghost found = look_up(m, (username@, ip));
        let mut e = match known {
            Some(e) => e,
            None => TupleEntry { failures: Vec::new(), locked_until: 0, last_access: 0 },
        };
        proof {
            if raw.contains_key((username@, ip)) {
                assert(m.contains_key((username@, ip)));
                assert(found == Some(e@));
            } else {
                assert(!m.contains_key((username@, ip)));
            }
        }
        e.last_access = now;
        e.failures.push(now);
        let max: usize = self.policy.tuple_max_attempts as usize;
        let n: usize = e.failures.len();
        let reached = max == 0 || (n >= max && now.saturating_sub(e.failures[n - max])
            <= TUPLE_WINDOW_SECS);
        let mut locked = false;
        if reached && e.locked_until <= now {
            e.locked_until = add_capped(now, self.policy.tuple_lockout_secs);
            e.failures = Vec::new();
            locked = true;
        } else if n > max {
            let kept = e.failures.split_off(n - max);
            e.failures = kept;
        }
        let ghost rec = e@;
        self.tuples.insert(key, e);
        proof {
            assert(room_for(
                old(self).state().tuples,
                m,
                (username@, ip),
                old(self).policy.max_entries,
                tuple_age(),
            ));
            assert(rec =~= tuple_failed(found, self.policy, now).0);
            assert(self.state().tuples =~= m.insert((username@, ip), rec));
        }
        locked
    }

    fn fail_ip(&mut self, ip: IpAddr, now: u64) -> (banned: bool)
        requires
            old(self).wf(),
        ensures
            final(self).wf(),
            final(self).policy == old(self).policy,
            final(self).tuples == old(self).tuples,
            final(self).names == old(self).names,
            final(self).metrics == old(self).metrics,
            ip_step(old(self).ips@, final(self).ips@, old(self).policy, ip, now, banned),
    {
        if self.ips.get(&ip).is_none() {
            self.make_room_ips();
        }
        let ghost m = self.ips@;
        let mut e = match self.ips.get(&ip) {
            Some(e) => *e,
            None => IpEntry {
                failed_attempts_hour: 0,
                window_start: 0,
                banned_until: 0,
                last_access: 0,
            },
        };
        if now.saturating_sub(e.window_start) > IP_WINDOW_SECS {
            e.window_start = now;
            e.failed_attempts_hour = 0;
        }
        e.last_access = now;
        e.failed_attempts_hour = e.failed_attempts_hour.saturating_add(1);
        let mut banned = false;
        if e.failed_attempts_hour >= self.policy.ip_max_attempts && e.banned_until <= now {
            e.banned_until = add_capped(now, self.policy.ip_ban_secs);
            e.failed_attempts_hour = 0;
            banned = true;
        }
        self.ips.insert(ip, e);
        proof {
            assert(room_for(old(self).ips@, m, ip, old(self).policy.max_entries, ip_age()));
        }
        banned
    }

    fn fail_name(&mut self, username: &str, ip: IpAddr, now: u64) -> (locked: bool)
        requires
            old(self).wf(),
        ensures
            final(self).wf(),
            final(self).policy == old(self).policy,
            final(self).tuples == old(self).tuples,
            final(self).ips == old(self).ips,
            final(self).metrics == old(self).metrics,
            name_step(
                old(self).state().names,
                final(self).state().names,
                old(self).policy,
                username@,
                ip,
                now,
                locked,
            ),
    {
        let key = NameKey { name: String::from_str(username) };
        if self.names.get(&key).is_none() {
            self.make_room_names();
        }
        let ghost m = self.state().names;
        let ghost raw = self.names@;
        let known = self.names.remove(&key);
        let ghost found = look_up(m, username@);
        let mut e = match known {
            Some(e) => e,
            None => {
                let ips: IpMap<()> = IpMap::new();
                UsernameEntry {
                    ips,
                    total_attempts_window: 0,
                    window_start: 0,
                    locked_until: 0,
                    last_access: 0,
                }
            },
        };
        proof {
            if raw.contains_key(username@) {
                assert(m.contains_key(username@));
                assert(found == Some(e@));
            } else {
                assert(!m.contains_key(username@));
                assert(e@.ips =~= Set::empty());
            }
        }
        if now.saturating_sub(e.window_start) > self.policy.username_window_secs {
            e.window_start = now;
            e.total_attempts_window = 0;
            e.ips = IpMap::new();
            proof {
                assert(e@.ips =~= Set::empty());
            }
        }
        e.last_access = now;
        e.total_attempts_window = e.total_attempts_window.saturating_add(1);
        let ghost before_insert = e@.ips;
        e.ips.insert(ip, ());
        proof {
            assert(e@.ips =~= before_insert.insert(ip));
        }
        let mut locked = false;
        if e.total_attempts_window >= self.policy.username_min_attempts && e.ips.len()
            >= self.policy.username_spread_min_ips as u128 && e.locked_until <= now {
            e.locked_until = add_capped(now, self.policy.username_lock_secs);
            e.total_attempts_window = 0;
            e.ips = IpMap::new();
            proof {
                assert(e@.ips =~= Set::empty());
            }
            locked = true;
        }
        let ghost rec = e@;
        self.names.insert(key, e);
        proof {
            assert(room_for(
                old(self).state().names,
                m,
                username@,
                old(self).policy.max_entries,
                name_age(),
            ));
            assert(rec == name_failed(found, self.policy, ip, now).0);
            assert(self.state().names =~= m.insert(username@, rec));
        }
        locked
    }

    /// Register a failed authentication at `now`.
    ///
    /// Returns the lockout kind that fired on this call, if any.
    pub fn record_failure_at(&mut self, username: &str, ip: IpAddr, now: u64) -> (r: Option<
        LockoutKind,
    >)
        requires
            old(self).wf(),
        ensures
            final(self).wf(),
            final(self).thresholds() == old(self).thresholds(),
            failure(
                old(self).state(),
                final(self).state(),
                old(self).thresholds(),
                username@,
                ip,
                now,
                r,
            ),
    {
        let mut fired: Option<LockoutKind> = None;
        let tuple = self.fail_tuple(username, ip, now);
        if tuple {
            fired = Some(LockoutKind::Tuple);
            self.metrics.tuple_lockouts = self.metrics.tuple_lockouts.wrapping_add(1);
        }
        let banned = self.fail_ip(ip, now);
        if banned {
            if fired.is_none() {
                fired = Some(LockoutKind::Ip);
            }
            self.metrics.ip_bans = self.metrics.ip_bans.wrapping_add(1);
        }
        let name = self.fail_name(username, ip, now);
        if name {
            if fired.is_none() {
                fired = Some(LockoutKind::UsernameSpread);
            }
            self.metrics.username_locks = self.metrics.username_locks.wrapping_add(1);
        }
        proof {
            assert(failure_with(
                old(self).state(),
                self.state(),
                old(self).thresholds(),
                username@,
                ip,
                now,
                (tuple, banned, name),
            ));
        }
        fired
    }

    /// Register a failed authentication.
    ///
    /// Returns the lockout kind that fired on this call, if any. The caller
    /// should include this in log messages / metrics.
    pub fn record_failure(&mut self, username: &str, ip: IpAddr) -> (r: Option<LockoutKind>)
        requires
            old(self).wf(),
        ensures
            final(self).wf(),
            final(self).thresholds() == old(self).thresholds(),
            exists|now: u64|
                reads_wall_secs(now) && #[trigger] failure(
                    old(self).state(),
                    final(self).state(),
                    old(self).thresholds(),
                    username@,
                    ip,
                    now,
                    r,
                ),
    {
        let now: u64 = now_secs();
        self.record_failure_at(username, ip, now)
    }

    /// Snapshot of cumulative lockout counters for metrics export.
    pub fn metrics_snapshot(&self) -> (s: LockoutMetricsSnapshot)
        ensures
            s == self.state().metrics,
    {
        self.metrics
    }

    /// Sizes of the three tracked maps.
    pub fn debug_sizes(&self) -> (r: (usize, usize, usize))
        requires
            self.wf(),
        ensures
            r.0 == self.state().tuples.dom().len(),
            r.1 == self.state().ips.dom().len(),
            r.2 == self.state().names.dom().len(),
    {
        let ips = self.ips.keys();
        proof {
            assert(self.state().tuples.dom() =~= self.tuples@.dom());
            assert(self.state().names.dom() =~= self.names@.dom());
            assert(ips@.to_set() =~= self.ips@.dom());
            ips@.unique_seq_to_set();
        }
        (self.tuples.len(), ips.len(), self.names.len())
    }
}

/// A success clears its own pair and nothing else: other pairs, banned addresses and locked
/// names stay as they are.
pub proof fn law_success_clears_only_its_pair(
    s: LockoutState,
    name: Seq<char>,
    ip: IpAddr,
    other: Seq<char>,
    from: IpAddr,
    now: u64,
)
    requires
        (other, from) != (name, ip),
    ensures
        ({
            let after = cleared(s, name, ip);
            &&& refusal(after, other, from, now) == refusal(s, other, from, now)
            &&& refusal(after, name, ip, now) != Some(LockoutKind::Tuple)
            &&& !after.tuples.contains_key((name, ip))
            &&& s.tuples.contains_key((other, from)) ==> after.tuples.contains_key((other, from))
                && after.tuples[(other, from)] == s.tuples[(other, from)]
            &&& after.ips == s.ips
            &&& after.names == s.names
            &&& after.metrics == s.metrics
        }),
{
}

/// Failures from a single address never lock a name for everyone, as long as more than one
/// address is asked for.
pub proof fn law_one_address_locks_no_name(
    e: Option<NameRecord>,
    p: LockoutPolicy,
    ip: IpAddr,
    now: u64,
)
    requires
        p.username_spread_min_ips > 1,
        e matches Some(r) ==> r.ips.subset_of(set![ip]),
    ensures
        !name_failed(e, p, ip, now).1,
        name_failed(e, p, ip, now).0.ips.subset_of(set![ip]),
{
    let e0 = match e {
        Some(x) => x.ips,
        None => Set::empty(),
    };
    assert(e0.insert(ip) =~= set![ip]);
    assert(Set::<IpAddr>::empty().insert(ip) =~= set![ip]);
    assert(set![ip].len() == 1);
}

/// The pair after failures at the given times, from nothing.
pub open spec fn tuple_after(times: Seq<u64>, p: LockoutPolicy) -> (Option<PairRecord>, bool)
    decreases times.len(),
{
    if times.len() == 0 {
        (None, false)
    } else {
        let prior = tuple_after(times.drop_last(), p);
        let r = tuple_failed(prior.0, p, times.last());
        (Some(r.0), r.1)
    }
}

/// Whether none of the failures at the given times locks the pair.
pub open spec fn none_locks(times: Seq<u64>, p: LockoutPolicy) -> bool {
    forall|k: int| 0 <= k <= times.len() ==> !(#[trigger] tuple_after(times.take(k), p)).1
}

proof fn lemma_failures_are_kept(times: Seq<u64>, p: LockoutPolicy)
    requires
        times.len() >= 1,
        none_locks(times, p),
    ensures
        tuple_after(times, p).0 == Some(
            PairRecord {
                failures: latest(times, p.tuple_max_attempts as nat),
                locked_until: 0,
                last_access: times.last(),
            },
        ),
    decreases times.len(),
{
    let before = times.drop_last();
    let max = p.tuple_max_attempts as nat;
    assert(times.take(times.len() as int) =~= times);
    assert(before.push(times.last()) =~= times);
    if before.len() >= 1 {
        assert forall|k: int| 0 <= k <= before.len() implies !(#[trigger] tuple_after(
            before.take(k),
            p,
        )).1 by {
            assert(before.take(k) =~= times.take(k));
        }
        lemma_failures_are_kept(before, p);
        assert(latest(latest(before, max).push(times.last()), max) =~= latest(times, max));
    } else {
        assert(tuple_after(before, p) == (None::<PairRecord>, false));
        assert(Seq::<u64>::empty().push(times.last()) =~= times);
    }
    assert(!tuple_after(times.take(times.len() as int), p).1);
}

/// In any hour the threshold holds: as long as no failure has locked the pair, the next one locks
/// it exactly when it and those before it come to the threshold within one hour, wherever that
/// hour begins.
pub proof fn law_pair_is_locked_at_the_threshold(times: Seq<u64>, p: LockoutPolicy)
    requires
        times.len() >= 1,
        none_locks(times.drop_last(), p),
    ensures
        tuple_after(times, p).1 == (p.tuple_max_attempts == 0 || (times.len()
            >= p.tuple_max_attempts && times.last() <= times[times.len() - p.tuple_max_attempts]
            + TUPLE_WINDOW_SECS)),
        tuple_after(times, p).1 ==> tuple_after(times, p).0->0.locked_until == plus_capped(
            times.last(),
            p.tuple_lockout_secs,
        ),
{
    let before = times.drop_last();
    let now = times.last();
    let max = p.tuple_max_attempts as nat;
    assert(before.push(now) =~= times);
    if before.len() >= 1 {
        lemma_failures_are_kept(before, p);
        let all = latest(before, max).push(now);
        if max > 0 && times.len() >= max {
            assert(all[all.len() - max] == times[times.len() - max]);
        }
    } else {
        assert(tuple_after(before, p) == (None::<PairRecord>, false));
        assert(Seq::<u64>::empty().push(now) =~= times);
    }
}

/// Failures that are more than an hour old do not count: where all are, the next one locks the
/// pair only where a single failure does.
pub proof fn law_failures_of_a_past_hour_do_not_count(e: PairRecord, p: LockoutPolicy, now: u64)
    requires
        forall|i: int| 0 <= i < e.failures.len() ==> now > #[trigger] e.failures[i]
            + TUPLE_WINDOW_SECS,
    ensures
        tuple_failed(Some(e), p, now).1 == (p.tuple_max_attempts <= 1 && e.locked_until <= now),
{
    let all = e.failures.push(now);
    let max = p.tuple_max_attempts;
    if 2 <= max <= all.len() {
        assert(all[all.len() - max] == e.failures[all.len() - max]);
    }
}

/// A further failure of a pair, an address or a name that is known already evicts nothing: every
/// other entry stays as it was.
pub proof fn law_known_keys_evict_nothing(
    before: LockoutState,
    after: LockoutState,
    p: LockoutPolicy,
    name: Seq<char>,
    ip: IpAddr,
    now: u64,
    kind: Option<LockoutKind>,
)
    requires
        failure(before, after, p, name, ip, now, kind),
    ensures
        before.tuples.contains_key((name, ip)) ==> after.tuples == before.tuples.insert(
            (name, ip),
            tuple_failed(Some(before.tuples[(name, ip)]), p, now).0,
        ),
        before.ips.contains_key(ip) ==> after.ips == before.ips.insert(
            ip,
            ip_failed(Some(before.ips[ip]), p, now).0,
        ),
        before.names.contains_key(name) ==> after.names == before.names.insert(
            name,
            name_failed(Some(before.names[name]), p, ip, now).0,
        ),
{
}

/// Whenever a lockout fires, the next attempt is refused as long as the lockout of that kind lasts.
pub proof fn law_lockout_refuses(
    before: LockoutState,
    after: LockoutState,
    p: LockoutPolicy,
    name: Seq<char>,
    ip: IpAddr,
    now: u64,
    later: u64,
    kind: LockoutKind,
)
    requires
        failure(before, after, p, name, ip, now, Some(kind)),
        later < plus_capped(
            now,
            match kind {
                LockoutKind::Tuple => p.tuple_lockout_secs,
                LockoutKind::Ip => p.ip_ban_secs,
                LockoutKind::UsernameSpread => p.username_lock_secs,
            },
        ),
    ensures
        refusal(after, name, ip, later) is Some,
{
}

/// Every map stays within its size.
pub proof fn law_maps_are_bounded<K, V>(
    before: Map<K, V>,
    m: Map<K, V>,
    cap: usize,
    age: spec_fn(V) -> u64,
    k: K,
    v: V,
)
    requires
        before.dom().finite(),
        before.dom().len() <= cap,
        cap >= 1,
        room_for(before, m, k, cap, age),
        forall|j: K| #[trigger] before.contains_key(j) ==> age(before[j]) < u64::MAX,
    ensures
        m.insert(k, v).dom().len() <= cap,
        m.insert(k, v).dom().finite(),
{
    if before.contains_key(k) {
        assert(before.insert(k, v).dom() =~= before.dom());
    } else if before.dom().len() < cap {
        assert(m == before);
    } else {
        let any = before.dom().choose();
        assert(before.dom().contains(any));
        assert(before.contains_key(any));
        assert(age(before[any]) < u64::MAX);
    }
}

/// Lockouts end: with no further failures an address is banned no longer than the ban lasts from
/// the failure that began it, nor a pair or a name locked; and a failure while a lockout lasts
/// does not prolong it.
pub proof fn law_lockouts_end(
    before: LockoutState,
    after: LockoutState,
    p: LockoutPolicy,
    name: Seq<char>,
    ip: IpAddr,
    now: u64,
    kind: Option<LockoutKind>,
    any_name: Seq<char>,
    any_ip: IpAddr,
    later: u64,
)
    requires
        failure(before, after, p, name, ip, now, kind),
    ensures
        later >= now + p.ip_ban_secs && (before.ips.contains_key(ip) ==> later
            >= before.ips[ip].banned_until) ==> refusal(after, any_name, ip, later) != Some(
            LockoutKind::Ip,
        ),
        later >= now + p.tuple_lockout_secs && (before.tuples.contains_key((name, ip)) ==> later
            >= before.tuples[(name, ip)].locked_until) ==> refusal(after, name, ip, later) != Some(
            LockoutKind::Tuple,
        ),
        later >= now + p.username_lock_secs && (before.names.contains_key(name) ==> later
            >= before.names[name].locked_until) ==> refusal(after, name, any_ip, later) != Some(
            LockoutKind::UsernameSpread,
        ),
{
}

/// A lockout that fires holds for as long as the policy says, for everyone that it is meant for: a
/// ban for its address under every name, a lock of a name from every address.
pub proof fn law_lockouts_last(
    before: LockoutState,
    after: LockoutState,
    p: LockoutPolicy,
    name: Seq<char>,
    ip: IpAddr,
    now: u64,
    fired: (bool, bool, bool),
    any_name: Seq<char>,
    any_ip: IpAddr,
    later: u64,
)
    requires
        failure_with(before, after, p, name, ip, now, fired),
        later < u64::MAX,
    ensures
        fired.0 && later < now + p.tuple_lockout_secs ==> refusal(after, name, ip, later) is Some,
        fired.1 && later < now + p.ip_ban_secs ==> refusal(after, any_name, ip, later) == Some(
            LockoutKind::Ip,
        ),
        fired.2 && later < now + p.username_lock_secs ==> refusal(
            after,
            name,
            any_ip,
            later,
        ) is Some,
{
}

/// A failure touches only its own pair, address and name: of everything else nothing changes, but
/// that an entry may have to make room.
pub proof fn law_failures_touch_only_their_own(
    before: LockoutState,
    after: LockoutState,
    p: LockoutPolicy,
    name: Seq<char>,
    ip: IpAddr,
    now: u64,
    kind: Option<LockoutKind>,
    other_name: Seq<char>,
    other_ip: IpAddr,
)
    requires
        failure(before, after, p, name, ip, now, kind),
    ensures
        after.tuples.contains_key((name, ip)),
        after.ips.contains_key(ip),
        after.names.contains_key(name),
        (other_name, other_ip) != (name, ip) && after.tuples.contains_key((other_name, other_ip))
            ==> before.tuples.contains_key((other_name, other_ip)) && after.tuples[(
            other_name,
            other_ip,
        )] == before.tuples[(other_name, other_ip)],
        other_ip != ip && after.ips.contains_key(other_ip) ==> before.ips.contains_key(other_ip)
            && after.ips[other_ip] == before.ips[other_ip],
        other_name != name && after.names.contains_key(other_name) ==> before.names.contains_key(
            other_name,
        ) && after.names[other_name] == before.names[other_name],
        before.tuples.dom().len() < p.max_entries && before.tuples.contains_key(
            (other_name, other_ip),
        ) ==> after.tuples.contains_key((other_name, other_ip)),
        before.ips.dom().len() < p.max_entries && before.ips.contains_key(other_ip)
            ==> after.ips.contains_key(other_ip),
        before.names.dom().len() < p.max_entries && before.names.contains_key(other_name)
            ==> after.names.contains_key(other_name),
{
}

/// Within an hour from its first failure the failures of an address add up, whatever the names: it
/// is banned by the one that makes them as many as the policy allows, unless it is banned already,
/// and counts from zero after that.
pub proof fn law_failures_of_an_address_add_up(e: IpEntry, p: LockoutPolicy, now: u64)
    requires
        now <= e.window_start + 3600,
        e.failed_attempts_hour < u32::MAX,
    ensures
        ({
            let r = ip_failed(Some(e), p, now);
            &&& r.1 <==> e.failed_attempts_hour + 1 >= p.ip_max_attempts && e.banned_until <= now
            &&& !r.1 ==> r.0.failed_attempts_hour == e.failed_attempts_hour + 1
                && r.0.banned_until == e.banned_until
            &&& r.1 ==> r.0.failed_attempts_hour == 0
            &&& r.0.window_start == e.window_start
            &&& r.0.last_access == now
        }),
{
}

/// After an hour the failures of an address count from one again.
pub proof fn law_an_hour_clears_an_address(e: IpEntry, p: LockoutPolicy, now: u64)
    requires
        now > e.window_start + 3600,
    ensures
        ({
            let r = ip_failed(Some(e), p, now);
            &&& r.1 <==> p.ip_max_attempts <= 1 && e.banned_until <= now
            &&& !r.1 ==> r.0.failed_attempts_hour == 1 && r.0.banned_until == e.banned_until
            &&& r.0.window_start == now
            &&& r.0.last_access == now
        }),
{
}

/// The address after failures at the given times, from nothing.
pub open spec fn ip_after(times: Seq<u64>, p: LockoutPolicy) -> (Option<IpEntry>, bool)
    decreases times.len(),
{
    if times.len() == 0 {
        (None, false)
    } else {
        let prior = ip_after(times.drop_last(), p);
        let r = ip_failed(prior.0, p, times.last());
        (Some(r.0), r.1)
    }
}

/// The failures of one hour ban an address exactly when they come to the threshold.
pub proof fn law_address_is_banned_at_the_threshold(times: Seq<u64>, p: LockoutPolicy)
    requires
        1 <= times.len() <= p.ip_max_attempts,
        times[0] > 3600,
        forall|i: int|
            0 <= i < times.len() ==> times[0] <= #[trigger] times[i] <= times[0] + 3600,
    ensures
        ip_after(times, p).1 <==> times.len() == p.ip_max_attempts,
        ip_after(times, p).0 is Some,
        ip_after(times, p).0->0.window_start == times[0],
        times.len() < p.ip_max_attempts ==> ip_after(times, p).0->0.failed_attempts_hour
            == times.len() && ip_after(times, p).0->0.banned_until == 0,
    decreases times.len(),
{
    let prior = times.drop_last();
    assert(times.last() == times[times.len() - 1]);
    if prior.len() > 0 {
        assert forall|i: int| 0 <= i < prior.len() implies prior[0] <= #[trigger] prior[i]
            <= prior[0] + 3600 by {
            assert(prior[i] == times[i]);
        }
        law_address_is_banned_at_the_threshold(prior, p);
    } else {
        assert(ip_after(prior, p) == (None::<IpEntry>, false));
    }
}

/// Within its window the failures of a name add up, and so do the addresses that they come from:
/// the name is locked by the one that makes both as many as the policy says, unless it is locked
/// already, and counts from nothing after that.
pub proof fn law_failures_of_a_name_add_up(e: NameRecord, p: LockoutPolicy, ip: IpAddr, now: u64)
    requires
        now <= e.window_start + p.username_window_secs,
        e.total_attempts_window < u32::MAX,
        e.ips.finite(),
    ensures
        ({
            let r = name_failed(Some(e), p, ip, now);
            let addresses = e.ips.len() + (if e.ips.contains(ip) {
                0int
            } else {
                1int
            });
            &&& r.1 <==> e.total_attempts_window + 1 >= p.username_min_attempts && addresses
                >= p.username_spread_min_ips && e.locked_until <= now
            &&& !r.1 ==> r.0.total_attempts_window == e.total_attempts_window + 1 && r.0.ips.len()
                == addresses && r.0.ips.contains(ip) && e.ips.subset_of(r.0.ips)
                && r.0.locked_until == e.locked_until
            &&& r.1 ==> r.0.total_attempts_window == 0 && r.0.ips.len() == 0
            &&& r.0.window_start == e.window_start
            &&& r.0.last_access == now
        }),
{
    if e.ips.contains(ip) {
        assert(e.ips.insert(ip) =~= e.ips);
    }
}

/// After its window the failures of a name, and their addresses, count from one again.
pub proof fn law_a_window_clears_a_name(e: NameRecord, p: LockoutPolicy, ip: IpAddr, now: u64)
    requires
        now > e.window_start + p.username_window_secs,
    ensures
        ({
            let r = name_failed(Some(e), p, ip, now);
            &&& r.1 <==> p.username_min_attempts <= 1 && p.username_spread_min_ips <= 1
                && e.locked_until <= now
            &&& !r.1 ==> r.0.total_attempts_window == 1 && r.0.ips == set![ip]
                && r.0.locked_until == e.locked_until
            &&& r.0.window_start == now
            &&& r.0.last_access == now
        }),
{
    assert(Set::<IpAddr>::empty().insert(ip) =~= set![ip]);
    assert(set![ip].len() == 1);
}

/// Each lockout that fires is counted once, under its kind, and the most specific one is reported.
pub proof fn law_lockouts_are_counted(
    before: LockoutState,
    after: LockoutState,
    p: LockoutPolicy,
    name: Seq<char>,
    ip: IpAddr,
    now: u64,
    fired: (bool, bool, bool),
)
    requires
        failure_with(before, after, p, name, ip, now, fired),
        before.metrics.tuple_lockouts < u64::MAX,
        before.metrics.ip_bans < u64::MAX,
        before.metrics.username_locks < u64::MAX,
    ensures
        after.metrics.tuple_lockouts == before.metrics.tuple_lockouts + (if fired.0 {
            1int
        } else {
            0int
        }),
        after.metrics.ip_bans == before.metrics.ip_bans + (if fired.1 {
            1int
        } else {
            0int
        }),
        after.metrics.username_locks == before.metrics.username_locks + (if fired.2 {
            1int
        } else {
            0int
        }),
        fired.0 ==> reported(fired.0, fired.1, fired.2) == Some(LockoutKind::Tuple),
        fired.1 && !fired.0 ==> reported(fired.0, fired.1, fired.2) == Some(LockoutKind::Ip),
        fired.2 && !fired.0 && !fired.1 ==> reported(fired.0, fired.1, fired.2) == Some(
            LockoutKind::UsernameSpread,
        ),
        !fired.0 && !fired.1 && !fired.2 ==> reported(fired.0, fired.1, fired.2) is None,
{
}

/// Who did nothing wrong is not refused: without an entry for the pair, the address or the name
/// every attempt passes.
pub proof fn law_strangers_pass(s: LockoutState, name: Seq<char>, ip: IpAddr, now: u64)
    requires
        !s.ips.contains_key(ip),
        !s.tuples.contains_key((name, ip)),
        !s.names.contains_key(name),
    ensures
        refusal(s, name, ip, now) is None,
{
}

/// Room is made only where it is needed, and by what was not used for the longest time.
pub proof fn law_the_least_used_makes_room<K, V>(
    before: Map<K, V>,
    after: Map<K, V>,
    k: K,
    cap: usize,
    age: spec_fn(V) -> u64,
    gone: K,
    other: K,
)
    requires
        room_for(before, after, k, cap, age),
        before.contains_key(gone),
        !after.contains_key(gone),
    ensures
        !before.contains_key(k),
        before.dom().len() >= cap,
        before.contains_key(other) ==> age(before[gone]) <= age(before[other]),
        before.contains_key(other) && other != gone ==> after.contains_key(other) && after[other]
            == before[other],
        tuple_age() == (|e: PairRecord| e.last_access),
        ip_age() == (|e: IpEntry| e.last_access),
        name_age() == (|e: NameRecord| e.last_access),
{
    let j = choose|j: K| #[trigger] oldest(before, age, j) && after == before.remove(j);
    assert(j == gone);
}

/// The thresholds that the server starts with: ten failures of a pair and a hundred of an address
/// in an hour, twenty of a name from five addresses in a day, each for an hour of lockout.
pub proof fn law_production_thresholds(p: LockoutPolicy)
    requires
        p == LockoutPolicy::standard(),
    ensures
        p.tuple_max_attempts == 10 && p.tuple_lockout_secs == 3600,
        p.ip_max_attempts == 100 && p.ip_ban_secs == 3600,
        p.username_min_attempts == 20 && p.username_spread_min_ips == 5,
        p.username_window_secs == 86400 && p.username_lock_secs == 3600,
        p.max_entries == 100_000,
{
}

/// A failure that locks a pair starts its count anew; one that does not is kept with those before
/// it, and leaves a lock as it is. A pair that is locked is not locked again before the lock ends.
pub proof fn law_a_lock_starts_the_count_anew(e: PairRecord, p: LockoutPolicy, now: u64)
    ensures
        ({
            let r = tuple_failed(Some(e), p, now);
            &&& r.1 ==> r.0.failures.len() == 0 && e.locked_until <= now
            &&& r.1 && now + p.tuple_lockout_secs <= u64::MAX ==> r.0.locked_until == now
                + p.tuple_lockout_secs
            &&& !r.1 ==> r.0.locked_until == e.locked_until
            &&& !r.1 && p.tuple_max_attempts > 0 ==> r.0.failures.len() > 0 && r.0.failures.last()
                == now
            &&& !r.1 && e.failures.len() < p.tuple_max_attempts ==> r.0.failures == e.failures.push(
                now,
            )
            &&& r.0.last_access == now
        }),
{
}

} // verus!
