//! Token bucket rate limiter.

use crate::rounding::{
    law_a_second_brings_the_rate, law_refill_is_proportional, scale_by_seconds, scaled_by_seconds,
};
use crate::time::Clock;
use vstd::prelude::*;

verus! {

/// Shortest time, in microseconds, after which tokens are added.
pub const REFILL_INTERVAL_US: u64 = 1000;

/// Token bucket rate limiter. A rate of zero is no limit.
#[derive(Clone, Copy, Debug)]
pub struct RateLimiter {
    /// Maximum packets per second.
    pub max_pps: u32,
    /// Maximum bytes per second.
    pub max_bps: u64,
    /// Packets that may still pass.
    pub packet_tokens: u64,
    /// Bytes that may still pass.
    pub byte_tokens: u64,
    /// When tokens were last added, in microseconds of `clock`.
    pub last_refill: u64,
    /// The clock that `last_refill` is read from.
    pub clock: Clock,
}

/// `a - b`, not below zero.
pub open spec fn monus(a: nat, b: nat) -> nat {
    if a >= b {
        (a - b) as nat
    } else {
        0
    }
}

/// Tokens after `added` came in, at most twice the rate.
pub open spec fn topped_up(tokens: nat, added: nat, rate: nat) -> nat {
    if tokens + added <= 2 * rate {
        tokens + added
    } else {
        2 * rate
    }
}

impl RateLimiter {
    /// The cap on byte tokens fits a machine word.
    pub open spec fn wf(self) -> bool {
        2 * self.max_bps <= u64::MAX
    }

    /// Whether nothing is limited.
    pub open spec fn no_limit(self) -> bool {
        self.max_pps == 0 && self.max_bps == 0
    }

    /// The limiter at time `now`, before a packet is charged: tokens for the time that passed are
    /// added once at least a millisecond has passed, and at most two seconds' worth are kept.
    pub open spec fn refilled(self, now: u64) -> RateLimiter {
        let elapsed = monus(now as nat, self.last_refill as nat);
        if elapsed < REFILL_INTERVAL_US {
            self
        } else {
            RateLimiter {
                last_refill: now,
                packet_tokens: if self.max_pps > 0 {
                    topped_up(
                        self.packet_tokens as nat,
                        scaled_by_seconds(self.max_pps as nat, elapsed),
                        self.max_pps as nat,
                    ) as u64
                } else {
                    self.packet_tokens
                },
                byte_tokens: if self.max_bps > 0 {
                    topped_up(
                        self.byte_tokens as nat,
                        scaled_by_seconds(self.max_bps as nat, elapsed),
                        self.max_bps as nat,
                    ) as u64
                } else {
                    self.byte_tokens
                },
                ..self
            }
        }
    }

    /// Whether both buckets hold enough for a packet of `bytes`.
    pub open spec fn admits(self, bytes: usize) -> bool {
        &&& self.max_pps == 0 || self.packet_tokens > 0
        &&& self.max_bps == 0 || self.byte_tokens >= bytes
    }

    /// The limiter after a packet of `bytes` was charged.
    pub open spec fn charged(self, bytes: usize) -> RateLimiter {
        RateLimiter {
            packet_tokens: if self.max_pps > 0 {
                (self.packet_tokens - 1) as u64
            } else {
                self.packet_tokens
            },
            byte_tokens: if self.max_bps > 0 {
                (self.byte_tokens - bytes) as u64
            } else {
                self.byte_tokens
            },
            ..self
        }
    }

    /// Whether a packet of `bytes` may pass at time `now`.
    pub open spec fn allows(self, bytes: usize, now: u64) -> bool {
        self.no_limit() || self.refilled(now).admits(bytes)
    }

    /// The limiter after a packet of `bytes` was checked at time `now`.
    pub open spec fn checked(self, bytes: usize, now: u64) -> RateLimiter {
        if self.no_limit() {
            self
        } else if self.refilled(now).admits(bytes) {
            self.refilled(now).charged(bytes)
        } else {
            self.refilled(now)
        }
    }

    /// What a check does: the outcome for a reading of the clock.
    pub open spec fn check_outcome(self, bytes: usize, after: RateLimiter, allowed: bool) -> bool {
        exists|now: u64|
            self.clock.reads_us(now) && allowed == self.allows(bytes, now) && after
                == #[trigger] self.checked(bytes, now)
    }

    /// Neither bucket holds more than two seconds' worth.
    pub open spec fn within_burst(self) -> bool {
        &&& self.max_pps > 0 ==> self.packet_tokens <= 2 * self.max_pps
        &&& self.max_bps > 0 ==> self.byte_tokens <= 2 * self.max_bps
    }

    /// A limiter with full buckets at time `now` of `clock`.
    pub fn new_at(max_pps: u32, max_bps: u64, clock: Clock, now: u64) -> (r: RateLimiter)
        ensures
            r == (RateLimiter {
                max_pps,
                max_bps,
                packet_tokens: max_pps as u64,
                byte_tokens: max_bps,
                last_refill: now,
                clock,
            }),
            r.within_burst(),
    {
        RateLimiter {
            max_pps,
            max_bps,
            packet_tokens: max_pps as u64,
            byte_tokens: max_bps,
            last_refill: now,
            clock,
        }
    }

    /// Create a new rate limiter.
    pub fn new(max_pps: u32, max_bps: u64) -> (r: RateLimiter)
        ensures
            r.max_pps == max_pps,
            r.max_bps == max_bps,
            r.packet_tokens == max_pps,
            r.byte_tokens == max_bps,
            r.clock.started(),
            r.clock.reads_us(r.last_refill),
            r.within_burst(),
    {
        let clock = Clock::start();
        let now: u64 = clock.now_us();
        Self::new_at(max_pps, max_bps, clock, now)
    }

    /// Create an unlimited rate limiter.
    pub fn unlimited() -> (r: RateLimiter)
        ensures
            r.no_limit(),
            r.packet_tokens == 0,
            r.byte_tokens == 0,
            r.clock.started(),
            r.clock.reads_us(r.last_refill),
    {
        Self::new(0, 0)
    }

    /// Adds the tokens of the time that passed until `now`.
    fn refill(&mut self, now: u64)
        requires
            old(self).wf(),
        ensures
            *final(self) == old(self).refilled(now),
    {
        let elapsed: u64 = now.saturating_sub(self.last_refill);
        if elapsed < REFILL_INTERVAL_US {
            return ;
        }
        self.last_refill = now;
        if self.max_pps > 0 {
            let added: u64 = scale_by_seconds(self.max_pps as u64, elapsed);
            let burst: u64 = self.max_pps as u64 * 2;
            let sum: u64 = self.packet_tokens.saturating_add(added);
            self.packet_tokens = if sum < burst { sum } else { burst };
        }
        if self.max_bps > 0 {
            let added: u64 = scale_by_seconds(self.max_bps, elapsed);
            let burst: u64 = self.max_bps * 2;
            let sum: u64 = self.byte_tokens.saturating_add(added);
            self.byte_tokens = if sum < burst { sum } else { burst };
        }
    }

    /// Check at time `now` if a packet of the given size is allowed. A refused packet uses up no
    /// token.
    pub fn check_at(&mut self, bytes: usize, now: u64) -> (allowed: bool)
        requires
            old(self).wf(),
        ensures
            allowed == old(self).allows(bytes, now),
            *final(self) == old(self).checked(bytes, now),
    {
        if self.max_pps == 0 && self.max_bps == 0 {
            return true;
        }
        self.refill(now);
        if self.max_pps > 0 && self.packet_tokens == 0 {
            return false;
        }
        if self.max_bps > 0 && self.byte_tokens < bytes as u64 {
            return false;
        }
        if self.max_pps > 0 {
            self.packet_tokens = self.packet_tokens - 1;
        }
        if self.max_bps > 0 {
            self.byte_tokens = self.byte_tokens - bytes as u64;
        }
        true
    }

    /// Check if a packet of the given size is allowed now.
    /// Returns true if allowed, false if rate limited.
    pub fn check(&mut self, bytes: usize) -> (allowed: bool)
        requires
            old(self).wf(),
        ensures
            old(self).check_outcome(bytes, *final(self), allowed),
            old(self).no_limit() ==> allowed,
    {
        let now: u64 = self.clock.now_us();
        let ghost before = *self;
        let allowed = self.check_at(bytes, now);
        proof {
            assert(*self == before.checked(bytes, now));
        }
        allowed
    }
}

/// A check keeps the rates and never fills a bucket beyond two seconds' worth.
pub proof fn law_burst_is_bounded(l: RateLimiter, bytes: usize, now: u64)
    requires
        l.wf(),
        l.within_burst(),
    ensures
        l.checked(bytes, now).within_burst(),
        l.checked(bytes, now).wf(),
        l.checked(bytes, now).max_pps == l.max_pps,
        l.checked(bytes, now).max_bps == l.max_bps,
{
}

/// A refused packet costs nothing: the limiter is as if only time had passed.
pub proof fn law_refusal_is_free(l: RateLimiter, bytes: usize, now: u64)
    requires
        !l.allows(bytes, now),
    ensures
        l.checked(bytes, now) == l.refilled(now),
{
}

/// A larger packet never passes where a smaller one is refused.
pub proof fn law_larger_packets_pass_less(l: RateLimiter, small: usize, large: usize, now: u64)
    requires
        small <= large,
        l.allows(large, now),
    ensures
        l.allows(small, now),
{
}

/// The limiter after `n` checks of packets of `bytes`, all at time `now`.
pub open spec fn after_checks(l: RateLimiter, bytes: usize, now: u64, n: nat) -> RateLimiter
    decreases n,
{
    if n == 0 {
        l
    } else {
        after_checks(l, bytes, now, (n - 1) as nat).checked(bytes, now)
    }
}

/// While no time passes, a limiter on packets alone lets exactly as many packets through as it
/// has tokens, and refuses every later one.
pub proof fn law_tokens_are_spent_one_by_one(l: RateLimiter, bytes: usize, now: u64, n: nat)
    requires
        l.max_pps > 0,
        l.max_bps == 0,
        l.refilled(now) == l,
    ensures
        after_checks(l, bytes, now, n).packet_tokens == monus(l.packet_tokens as nat, n),
        after_checks(l, bytes, now, n).allows(bytes, now) == (n < l.packet_tokens),
        after_checks(l, bytes, now, n).max_pps == l.max_pps,
        after_checks(l, bytes, now, n).max_bps == l.max_bps,
        after_checks(l, bytes, now, n).last_refill == l.last_refill,
        after_checks(l, bytes, now, n).refilled(now) == after_checks(l, bytes, now, n),
    decreases n,
{
    if n > 0 {
        law_tokens_are_spent_one_by_one(l, bytes, now, (n - 1) as nat);
    }
    if monus(now as nat, l.last_refill as nat) >= REFILL_INTERVAL_US {
        assert(l.refilled(now).last_refill == now);
    }
}

/// What a double-precision number may lose of a rate: nothing below 2^53.
pub open spec fn rounding_loss(rate: u64) -> u64 {
    rate / 0x20_0000_0000_0000
}

/// Time restores the budget: a second after tokens were last added each bucket holds at least a
/// second's worth again, however empty it was, so a packet of at most that many bytes passes.
pub proof fn law_time_restores_the_budget(l: RateLimiter, bytes: usize, now: u64)
    requires
        l.wf(),
        now >= l.last_refill + 1_000_000,
    ensures
        l.max_pps > 0 ==> l.refilled(now).packet_tokens >= l.max_pps,
        l.max_bps > 0 ==> l.refilled(now).byte_tokens >= l.max_bps - rounding_loss(l.max_bps),
        l.max_bps == 0 || bytes <= l.max_bps - rounding_loss(l.max_bps) ==> l.allows(bytes, now),
{
    let elapsed = (now - l.last_refill) as nat;
    law_a_second_brings_the_rate(l.max_pps as nat, elapsed);
    law_a_second_brings_the_rate(l.max_bps as nat, elapsed);
}

/// Tokens come in as time passes, in proportion to the rate: over `now - last_refill`
/// microseconds, once they are a millisecond or more, a bucket gains what the rate gives for that
/// time, less the dropped fraction and up to one part in 2^50, unless it is full with two seconds'
/// worth; and it gains no more than that.
pub proof fn law_refill_follows_the_rate(l: RateLimiter, now: u64)
    requires
        l.wf(),
        l.within_burst(),
        now >= l.last_refill + 1000,
    ensures
        l.max_pps > 0 ==> refilled_by(
            l.packet_tokens as int,
            l.refilled(now).packet_tokens as int,
            l.max_pps as int,
            now - l.last_refill,
        ),
        l.max_bps > 0 ==> refilled_by(
            l.byte_tokens as int,
            l.refilled(now).byte_tokens as int,
            l.max_bps as int,
            now - l.last_refill,
        ),
{
    let elapsed = (now - l.last_refill) as nat;
    if l.max_pps > 0 {
        lemma_topped_up(l.packet_tokens as nat, l.max_pps as nat, elapsed);
    }
    if l.max_bps > 0 {
        lemma_topped_up(l.byte_tokens as nat, l.max_bps as nat, elapsed);
    }
}

/// Whether a bucket went from `before` to `after` tokens as `micros` microseconds at `rate` tokens
/// a second make it.
pub open spec fn refilled_by(before: int, after: int, rate: int, micros: int) -> bool {
    &&& before <= after <= 2 * rate
    &&& (after - before) * 1_000_000 * 0x4_0000_0000_0000 <= rate * micros * 0x4_0000_0000_0001
    &&& after < 2 * rate ==> rate * micros * 0x3_ffff_ffff_ffff <= (after - before + 1) * 1_000_000
        * 0x4_0000_0000_0000
}

proof fn lemma_topped_up(tokens: nat, rate: nat, micros: nat)
    requires
        micros > 0,
        tokens <= 2 * rate,
        2 * rate <= u64::MAX,
        rate > 0,
    ensures
        refilled_by(
            tokens as int,
            topped_up(tokens, scaled_by_seconds(rate, micros), rate) as int,
            rate as int,
            micros as int,
        ),
{
    law_refill_is_proportional(rate, micros);
    let added = scaled_by_seconds(rate, micros);
    let after = topped_up(tokens, added, rate);
    let gained = (after - tokens) as nat;
    assert(gained <= added);
    assert(gained * 1_000_000 * 0x4_0000_0000_0000 <= added * 1_000_000 * 0x4_0000_0000_0000);
    assert(rate * micros * 0x4_0000_0000_0001 == (rate * micros) * 0x4_0000_0000_0001);
}

/// Where time has not moved on, nothing comes in: time is never counted twice, and a clock that
/// went back gives nothing.
pub proof fn law_time_is_counted_once(l: RateLimiter, now: u64)
    ensures
        l.refilled(now).refilled(now) == l.refilled(now),
        now <= l.last_refill ==> l.refilled(now) == l,
        now < l.last_refill + 1000 ==> l.refilled(now) == l,
        now >= l.last_refill + 1000 ==> l.refilled(now).last_refill == now,
{
}

/// A packet passes exactly when every bucket that is in use can pay for it, one packet token and
/// its bytes; it then pays exactly that, and a refused packet pays nothing. Rates of zero limit
/// nothing.
pub proof fn law_packets_pay_their_price(l: RateLimiter, bytes: usize, now: u64)
    ensures
        l.allows(bytes, now) <==> (l.max_pps > 0 ==> l.refilled(now).packet_tokens >= 1) && (
        l.max_bps > 0 ==> l.refilled(now).byte_tokens >= bytes),
        l.max_pps > 0 ==> l.checked(bytes, now).packet_tokens + (if l.allows(bytes, now) {
            1int
        } else {
            0int
        }) == l.refilled(now).packet_tokens,
        l.max_bps > 0 ==> l.checked(bytes, now).byte_tokens + (if l.allows(bytes, now) {
            bytes as int
        } else {
            0int
        }) == l.refilled(now).byte_tokens,
        l.checked(bytes, now).max_pps == l.max_pps,
        l.checked(bytes, now).max_bps == l.max_bps,
        l.checked(bytes, now).clock == l.clock,
        l.max_pps > 0 || l.max_bps > 0 ==> l.checked(bytes, now).last_refill == l.refilled(
            now,
        ).last_refill,
{
}

/// How many packets and how many bytes get through when the packets `ps`, each a size and a time,
/// are checked one after the other, and the limiter afterwards.
pub open spec fn let_through(l: RateLimiter, ps: Seq<(usize, u64)>) -> (nat, nat, RateLimiter)
    decreases ps.len(),
{
    if ps.len() == 0 {
        (0, 0, l)
    } else {
        let r = let_through(l, ps.drop_last());
        let p = ps.last();
        if r.2.allows(p.0, p.1) {
            (r.0 + 1, r.1 + p.0 as nat, r.2.checked(p.0, p.1))
        } else {
            (r.0, r.1, r.2.checked(p.0, p.1))
        }
    }
}

/// In the long run a session gets no more than its rate: whatever packets come whenever, those
/// that get through number at most what the bucket held plus what the rate gives for the time
/// between the first and the last refill, up to one part in 2^50; and so do their bytes.
pub proof fn law_rates_hold_in_the_long_run(l: RateLimiter, ps: Seq<(usize, u64)>)
    requires
        l.wf(),
        l.within_burst(),
    ensures
        let_through(l, ps).2.last_refill >= l.last_refill,
        let_through(l, ps).2.within_burst(),
        let_through(l, ps).2.wf(),
        let_through(l, ps).2.max_pps == l.max_pps,
        let_through(l, ps).2.max_bps == l.max_bps,
        l.max_pps > 0 ==> (let_through(l, ps).0 + let_through(l, ps).2.packet_tokens
            - l.packet_tokens) * 1_000_000 * 0x4_0000_0000_0000 <= l.max_pps * (let_through(
            l,
            ps,
        ).2.last_refill - l.last_refill) * 0x4_0000_0000_0001,
        l.max_bps > 0 ==> (let_through(l, ps).1 + let_through(l, ps).2.byte_tokens - l.byte_tokens)
            * 1_000_000 * 0x4_0000_0000_0000 <= l.max_bps * (let_through(l, ps).2.last_refill
            - l.last_refill) * 0x4_0000_0000_0001,
    decreases ps.len(),
{
    if ps.len() > 0 {
        law_rates_hold_in_the_long_run(l, ps.drop_last());
        let before = let_through(l, ps.drop_last());
        let after = let_through(l, ps);
        let now = ps.last().1;
        law_packets_pay_their_price(before.2, ps.last().0, now);
        law_burst_is_bounded(before.2, ps.last().0, now);
        if now >= before.2.last_refill + 1000 {
            law_refill_follows_the_rate(before.2, now);
            assert(before.2.refilled(now).last_refill == now);
        }
        if l.max_pps > 0 {
            lemma_gains_add_up(
                l.max_pps as int,
                before.0 + before.2.packet_tokens - l.packet_tokens,
                before.2.last_refill - l.last_refill,
                before.2.refilled(now).packet_tokens - before.2.packet_tokens,
                before.2.refilled(now).last_refill - before.2.last_refill,
            );
        }
        if l.max_bps > 0 {
            lemma_gains_add_up(
                l.max_bps as int,
                before.1 + before.2.byte_tokens - l.byte_tokens,
                before.2.last_refill - l.last_refill,
                before.2.refilled(now).byte_tokens - before.2.byte_tokens,
                before.2.refilled(now).last_refill - before.2.last_refill,
            );
        }
    } else {
        assert(l.max_pps * 0 * 0x4_0000_0000_0001 == 0);
        assert(l.max_bps * 0 * 0x4_0000_0000_0001 == 0);
    }
}

proof fn lemma_gains_add_up(rate: int, gain1: int, time1: int, gain2: int, time2: int)
    requires
        gain1 * 1_000_000 * 0x4_0000_0000_0000 <= rate * time1 * 0x4_0000_0000_0001,
        gain2 * 1_000_000 * 0x4_0000_0000_0000 <= rate * time2 * 0x4_0000_0000_0001,
    ensures
        (gain1 + gain2) * 1_000_000 * 0x4_0000_0000_0000 <= rate * (time1 + time2)
            * 0x4_0000_0000_0001,
{
    assert(rate * (time1 + time2) == rate * time1 + rate * time2) by (nonlinear_arith);
}

} // verus!
