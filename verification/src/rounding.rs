//! Integer arithmetic with the roundings of double-precision numbers.
//!
//! A double-precision number has 53 significant bits, and every operation rounds to the nearest
//! such number, ties to the even one.

use vstd::arithmetic::power2::{lemma2_to64, lemma_pow2_unfold, pow2};
use vstd::prelude::*;

verus! {

/// The integer nearest to `n / d`, ties to even.
pub open spec fn half_even(n: nat, d: nat) -> nat {
    let q = n / d;
    let r = n % d;
    if 2 * r > d || (2 * r == d && q % 2 == 1) {
        q + 1
    } else {
        q
    }
}

/// How many low bits of `n` do not fit into 53 significant bits.
pub open spec fn excess_bits(n: nat) -> nat
    decreases n,
{
    if n < 0x20_0000_0000_0000 {
        0
    } else {
        1 + excess_bits(n / 2)
    }
}

/// The double-precision number nearest to the integer `n`.
pub open spec fn to_double(n: nat) -> nat {
    half_even(n, pow2(excess_bits(n))) * pow2(excess_bits(n))
}

/// The binary scale at which `n / d` has 53 significant bits.
pub open spec fn quotient_scale(n: nat, d: nat) -> nat
    decreases 0x20_0000_0000_0000 * d - n,
    when n > 0
{
    if n >= 0x10_0000_0000_0000 * d {
        0
    } else {
        1 + quotient_scale(2 * n, d)
    }
}

/// `rate * (micros / 1_000_000)` in double precision, with its fraction dropped, at most
/// `u64::MAX`.
pub open spec fn scaled_by_seconds(rate: nat, micros: nat) -> nat {
    let us = to_double(micros);
    let scale = quotient_scale(us, 1_000_000);
    let secs = half_even(us * pow2(scale), 1_000_000);
    let product = to_double(to_double(rate) * secs) / pow2(scale);
    if product > u64::MAX {
        u64::MAX as nat
    } else {
        product
    }
}

/// Computes [`half_even`].
pub fn round_half_even(n: u128, d: u128) -> (r: u128)
    requires
        0 < d <= u128::MAX / 2,
        n < u128::MAX,
    ensures
        r == half_even(n as nat, d as nat),
        r * d <= n + d,
{
    let q: u128 = n / d;
    let r: u128 = n % d;
    proof {
        assert(q <= n) by (nonlinear_arith)
            requires
                q == n / d,
                d > 0,
        ;
        assert(q * d + r == n) by (nonlinear_arith)
            requires
                q == n / d,
                r == n % d,
                d > 0,
        ;
        assert((q + 1) * d == q * d + d) by (nonlinear_arith);
    }
    if 2 * r > d || (2 * r == d && q % 2 == 1) {
        q + 1
    } else {
        q
    }
}

/// Computes [`to_double`].
pub fn round_to_double(n: u128) -> (r: u128)
    requires
        n < 0x8000_0000_0000_0000_0000_0000_0000_0000,
    ensures
        r == to_double(n as nat),
        r <= 2 * n,
        n > 0 ==> r > 0,
{
    let mut t: u128 = n;
    let mut d: u128 = 1;
    let ghost mut e: nat = 0;
    proof {
        lemma2_to64();
    }
    while t >= 0x20_0000_0000_0000
        invariant
            excess_bits(n as nat) == e + excess_bits(t as nat),
            d == pow2(e),
            d >= 1,
            n < 0x8000_0000_0000_0000_0000_0000_0000_0000,
            t * d <= n,
            n < (t + 1) * d,
            e > 0 ==> t >= 0x10_0000_0000_0000,
            e == 0 ==> t == n,
        decreases t,
    {
        proof {
            assert(d <= n) by (nonlinear_arith)
                requires
                    t * d <= n,
                    t >= 1,
                    d >= 1,
            ;
            assert(2 * d * 0x10_0000_0000_0000 <= n) by (nonlinear_arith)
                requires
                    t * d <= n,
                    t >= 0x20_0000_0000_0000,
                    d >= 1,
            ;
            assert((t / 2) * (2 * d) <= n) by (nonlinear_arith)
                requires
                    t * d <= n,
                    d >= 1,
            ;
            assert(n < (t / 2 + 1) * (2 * d)) by (nonlinear_arith)
                requires
                    n < (t + 1) * d,
                    d >= 1,
            ;
            lemma_pow2_unfold(e + 1);
            e = e + 1;
        }
        t = t / 2;
        d = d * 2;
    }
    proof {
        assert(excess_bits(n as nat) == e);
        assert(e > 0 ==> d * 0x10_0000_0000_0000 <= n) by {
            if e > 0 {
                assert(d * 0x10_0000_0000_0000 <= n) by (nonlinear_arith)
                    requires
                        t * d <= n,
                        t >= 0x10_0000_0000_0000,
                        d >= 1,
                ;
            }
        }
    }
    let q: u128 = round_half_even(n, d);
    proof {
        assert(q * d <= n + d);
        if e == 0 {
            assert(d == 1);
            assert(q == n) by (nonlinear_arith)
                requires
                    q == half_even(n as nat, 1),
            ;
        }
        assert(n > 0 ==> q * d > 0) by {
            if n > 0 {
                assert(q >= n / d);
                assert(n / d >= 1) by (nonlinear_arith)
                    requires
                        d <= n,
                        d >= 1,
                ;
                assert(q * d > 0) by (nonlinear_arith)
                    requires
                        q >= 1,
                        d >= 1,
                ;
            }
        }
    }
    q * d
}

/// Computes [`scaled_by_seconds`].
pub fn scale_by_seconds(rate: u64, micros: u64) -> (r: u64)
    requires
        micros > 0,
    ensures
        r == scaled_by_seconds(rate as nat, micros as nat),
{
    let us: u128 = round_to_double(micros as u128);
    let mut n: u128 = us;
    let mut p: u128 = 1;
    let ghost mut scale: nat = 0;
    proof {
        lemma2_to64();
        assert(us * 1 == us);
    }
    while n < 0x10_0000_0000_0000 * 1_000_000
        invariant
            0 < n < 0x20_0000_0000_0000 * 1_000_000,
            0 < us,
            0 < p <= n,
            p == pow2(scale),
            n == us * p,
            quotient_scale(us as nat, 1_000_000) == scale + quotient_scale(n as nat, 1_000_000),
        decreases 0x20_0000_0000_0000 * 1_000_000 - n,
    {
        proof {
            assert(us * (2 * p) == 2 * (us * p)) by (nonlinear_arith);
            lemma_pow2_unfold(scale + 1);
            scale = scale + 1;
        }
        n = n * 2;
        p = p * 2;
    }
    let secs: u128 = round_half_even(n, 1_000_000);
    let wide: u128 = round_to_double(rate as u128);
    proof {
        assert(secs <= 0x20_0000_0000_0001);
        assert(wide * secs <= 0x2_0000_0000_0000_0000 * 0x20_0000_0000_0001) by (nonlinear_arith)
            requires
                wide <= 0x2_0000_0000_0000_0000,
                secs <= 0x20_0000_0000_0001,
        ;
    }
    let product: u128 = round_to_double(wide * secs) / p;
    if product > u64::MAX as u128 {
        u64::MAX
    } else {
        product as u64
    }
}

proof fn lemma_half_even(n: nat, d: nat)
    requires
        d > 0,
    ensures
        2 * (half_even(n, d) * d) <= 2 * n + d,
        2 * n <= 2 * (half_even(n, d) * d) + d,
        half_even(n, d) >= n / d,
        half_even(n, d) <= n / d + 1,
{
    let q = n / d;
    let r = n % d;
    assert(q * d + r == n) by (nonlinear_arith)
        requires
            q == n / d,
            r == n % d,
            d > 0,
    ;
    assert((q + 1) * d == q * d + d) by (nonlinear_arith);
    assert(r < d) by (nonlinear_arith)
        requires
            r == n % d,
            d > 0,
    ;
}

proof fn lemma_excess(n: nat)
    ensures
        pow2(excess_bits(n)) > 0,
        n < 0x20_0000_0000_0000 * pow2(excess_bits(n)),
        excess_bits(n) > 0 ==> n >= 0x10_0000_0000_0000 * pow2(excess_bits(n)),
    decreases n,
{
    lemma2_to64();
    if n >= 0x20_0000_0000_0000 {
        lemma_excess(n / 2);
        let e = excess_bits(n / 2);
        lemma_pow2_unfold(e + 1);
        if e == 0 {
            assert(pow2(1) == 2);
        }
    }
}

/// Rounding to double precision changes a number by at most one part in 2^53, and numbers below
/// 2^53 not at all.
pub proof fn law_doubles_are_close(n: nat)
    ensures
        to_double(n) * 0x20_0000_0000_0000 <= n * 0x20_0000_0000_0001,
        n * 0x1f_ffff_ffff_ffff <= to_double(n) * 0x20_0000_0000_0000,
        n < 0x20_0000_0000_0000 ==> to_double(n) == n,
        n - to_double(n) <= n / 0x20_0000_0000_0000,
{
    let e = excess_bits(n);
    let d = pow2(e);
    lemma_excess(n);
    lemma_half_even(n, d);
    lemma2_to64();
    if e == 0 {
        assert(half_even(n, 1) == n) by (nonlinear_arith);
        assert(to_double(n) == n);
    } else {
        lemma_pow2_unfold(e);
        let h = pow2((e - 1) as nat);
        assert(d == 2 * h);
        assert(h * 0x20_0000_0000_0000 <= n);
        assert(n - to_double(n) <= h);
        assert(to_double(n) - n <= h);
        assert(h <= n / 0x20_0000_0000_0000) by (nonlinear_arith)
            requires
                h * 0x20_0000_0000_0000 <= n,
        ;
    }
}

/// Whether a number has at most 53 significant bits.
spec fn fits_double(v: nat, c: nat, k: nat) -> bool {
    v == c * pow2(k) && c <= 0x20_0000_0000_0000
}

proof fn lemma_pow2_add(a: nat, b: nat)
    ensures
        pow2(a + b) == pow2(a) * pow2(b),
        pow2(a) > 0,
{
    vstd::arithmetic::power2::lemma_pow2_adds(a, b);
    vstd::arithmetic::power2::lemma_pow2_pos(a);
}

proof fn lemma_double_above(n: nat, v: nat, c: nat, k: nat)
    requires
        fits_double(v, c, k),
        v <= n,
    ensures
        to_double(n) >= v,
{
    let e = excess_bits(n);
    let d = pow2(e);
    lemma_excess(n);
    lemma_half_even(n, d);
    let q = n / d;
    assert(to_double(n) >= q * d) by (nonlinear_arith)
        requires
            to_double(n) == half_even(n, d) * d,
            half_even(n, d) >= q,
    ;
    if k >= e {
        lemma_pow2_add((k - e) as nat, e);
        let m = c * pow2((k - e) as nat);
        assert(v == m * d) by (nonlinear_arith)
            requires
                v == c * pow2(k),
                pow2(k) == pow2((k - e) as nat) * d,
                m == c * pow2((k - e) as nat),
        ;
        assert(m <= q) by (nonlinear_arith)
            requires
                m * d <= n,
                q == n / d,
                d > 0,
        ;
        assert(m * d <= q * d) by (nonlinear_arith)
            requires
                m <= q,
        ;
    } else {
        lemma_pow2_unfold(e);
        lemma_pow2_add((e - 1 - k) as nat, k);
        let h = pow2((e - 1) as nat);
        assert(pow2(k) <= h) by (nonlinear_arith)
            requires
                h == pow2((e - 1 - k) as nat) * pow2(k),
                pow2((e - 1 - k) as nat) > 0,
        ;
        assert(v <= 0x20_0000_0000_0000 * h) by (nonlinear_arith)
            requires
                v == c * pow2(k),
                c <= 0x20_0000_0000_0000,
                pow2(k) <= h,
        ;
        assert(q >= 0x10_0000_0000_0000) by (nonlinear_arith)
            requires
                n >= 0x10_0000_0000_0000 * d,
                q == n / d,
                d > 0,
        ;
        assert(q * d >= 0x10_0000_0000_0000 * d) by (nonlinear_arith)
            requires
                q >= 0x10_0000_0000_0000,
        ;
    }
}

proof fn lemma_quotient_scale(n: nat, d: nat)
    requires
        n > 0,
        d > 0,
    ensures
        n * pow2(quotient_scale(n, d)) >= 0x10_0000_0000_0000 * d,
        pow2(quotient_scale(n, d)) > 0,
    decreases 0x20_0000_0000_0000 * d - n,
{
    lemma2_to64();
    if n < 0x10_0000_0000_0000 * d {
        lemma_quotient_scale(2 * n, d);
        let k = quotient_scale(2 * n, d);
        lemma_pow2_unfold(k + 1);
        assert((2 * n) * pow2(k) == n * (2 * pow2(k))) by (nonlinear_arith);
    } else {
        assert(n * 1 == n);
    }
}

/// Over at least a second at least the rate comes in, up to the rounding of the rate to double
/// precision.
pub proof fn law_a_second_brings_the_rate(rate: nat, micros: nat)
    requires
        micros >= 1_000_000,
        rate <= u64::MAX,
    ensures
        scaled_by_seconds(rate, micros) >= rate - rate / 0x20_0000_0000_0000,
{
    lemma2_to64();
    let us = to_double(micros);
    assert(fits_double(1_000_000, 1_000_000, 0));
    lemma_double_above(micros, 1_000_000, 1_000_000, 0);
    let scale = quotient_scale(us, 1_000_000);
    let p = pow2(scale);
    lemma_quotient_scale(us, 1_000_000);
    let n = us * p;
    lemma_half_even(n, 1_000_000);
    let secs = half_even(n, 1_000_000);
    assert(n >= 1_000_000 * p) by (nonlinear_arith)
        requires
            n == us * p,
            us >= 1_000_000,
    ;
    assert(n / 1_000_000 >= p);
    assert(secs >= p);
    let wide = to_double(rate);
    law_doubles_are_close(rate);
    let e = excess_bits(rate);
    let c = half_even(rate, pow2(e));
    lemma_excess(rate);
    lemma_half_even(rate, pow2(e));
    assert(rate / pow2(e) < 0x20_0000_0000_0000) by (nonlinear_arith)
        requires
            rate < 0x20_0000_0000_0000 * pow2(e),
            pow2(e) > 0,
    ;
    lemma_pow2_add(e, scale);
    let floor = wide * p;
    assert(floor == c * pow2(e + scale)) by (nonlinear_arith)
        requires
            floor == wide * p,
            wide == c * pow2(e),
            pow2(e + scale) == pow2(e) * p,
    ;
    assert(floor <= wide * secs) by (nonlinear_arith)
        requires
            floor == wide * p,
            p <= secs,
    ;
    lemma_double_above(wide * secs, floor, c, e + scale);
    let rounded = to_double(wide * secs);
    assert(rounded / p >= wide) by (nonlinear_arith)
        requires
            rounded >= wide * p,
            p > 0,
    ;
}

proof fn lemma_rounding_steps(rate: nat, micros: nat)
    requires
        micros > 0,
    ensures
        ({
            let us = to_double(micros);
            let p = pow2(quotient_scale(us, 1_000_000));
            let secs = half_even(us * p, 1_000_000);
            &&& us > 0
            &&& p > 0
            &&& secs * 1_000_000 * 0x20_0000_0000_0000 <= us * p * 0x20_0000_0000_0001
            &&& us * p * 0x1f_ffff_ffff_ffff <= secs * 1_000_000 * 0x20_0000_0000_0000
        }),
{
    law_doubles_are_close(micros);
    let us = to_double(micros);
    lemma_quotient_scale(us, 1_000_000);
    let p = pow2(quotient_scale(us, 1_000_000));
    let n = us * p;
    lemma_half_even(n, 1_000_000);
    let secs = half_even(n, 1_000_000);
    assert(2 * (secs * 1_000_000) <= 2 * n + 1_000_000);
    assert(n >= 0x10_0000_0000_0000 * 1_000_000);
}

/// What comes in is in proportion to the rate and the time that passed, up to roundings of one
/// part in 2^50 and the dropped fraction, as long as it fits.
pub proof fn law_refill_is_proportional(rate: nat, micros: nat)
    requires
        micros > 0,
    ensures
        scaled_by_seconds(rate, micros) * 1_000_000 * 0x4_0000_0000_0000 <= rate * micros
            * 0x4_0000_0000_0001,
        scaled_by_seconds(rate, micros) < u64::MAX ==> rate * micros * 0x3_ffff_ffff_ffff <= (
        scaled_by_seconds(rate, micros) + 1) * 1_000_000 * 0x4_0000_0000_0000,
{
    lemma_rounding_steps(rate, micros);
    law_doubles_are_close(micros);
    law_doubles_are_close(rate);
    let us = to_double(micros);
    let p = pow2(quotient_scale(us, 1_000_000));
    let secs = half_even(us * p, 1_000_000);
    let wide = to_double(rate);
    law_doubles_are_close(wide * secs);
    let rounded = to_double(wide * secs);
    let product = rounded / p;
    lemma_chain_upper(rate, micros, wide, us, p, secs, rounded, product);
    lemma_chain_lower(rate, micros, wide, us, p, secs, rounded, product);
}

proof fn lemma_regroup(x: nat, p: nat, a: nat, rate: nat, micros: nat, b: nat)
    ensures
        x * p * 1_000_000 * a * a * a * a == (x * 1_000_000 * (a * a * a * a)) * p,
        (rate * b) * ((micros * b) * p * b) * b == (rate * micros * (b * b * b * b)) * p,
{
    let xp = x * p;
    assert(xp * 1_000_000 == (x * 1_000_000) * p) by (nonlinear_arith)
        requires
            xp == x * p,
    ;
    let y = xp * 1_000_000;
    assert(y * a * a * a * a == y * (a * a * a * a)) by (nonlinear_arith);
    let z = x * 1_000_000;
    let q = a * a * a * a;
    assert((z * p) * q == (z * q) * p) by (nonlinear_arith);
    assert((rate * b) * ((micros * b) * p * b) == (rate * micros * p) * (b * b * b)) by (
    nonlinear_arith);
    let w = rate * micros * p;
    assert((w * (b * b * b)) * b == w * (b * b * b * b)) by (nonlinear_arith);
    let rm = rate * micros;
    let t = b * b * b * b;
    assert((rm * p) * t == (rm * t) * p) by (nonlinear_arith);
}

proof fn lemma_chain_upper(
    rate: nat,
    micros: nat,
    wide: nat,
    us: nat,
    p: nat,
    secs: nat,
    rounded: nat,
    product: nat,
)
    requires
        p > 0,
        us * 0x20_0000_0000_0000 <= micros * 0x20_0000_0000_0001,
        secs * 1_000_000 * 0x20_0000_0000_0000 <= us * p * 0x20_0000_0000_0001,
        wide * 0x20_0000_0000_0000 <= rate * 0x20_0000_0000_0001,
        rounded * 0x20_0000_0000_0000 <= wide * secs * 0x20_0000_0000_0001,
        product == rounded / p,
    ensures
        product * 1_000_000 * 0x4_0000_0000_0000 <= rate * micros * 0x4_0000_0000_0001,
{
    let a: nat = 0x20_0000_0000_0000;
    let b: nat = 0x20_0000_0000_0001;
    assert(product * p <= rounded) by (nonlinear_arith)
        requires
            product == rounded / p,
            p > 0,
    ;
    // Each step multiplies both sides by what the step before bounds.
    let x0 = product * p * 1_000_000 * a * a * a * a;
    let x1 = wide * secs * b * 1_000_000 * a * a * a;
    let x2 = wide * (us * p * b) * b * a * a;
    let x3 = (rate * b) * (us * p * b) * b * a;
    let x4 = (rate * b) * ((micros * b) * p * b) * b;
    assert(x0 <= x1) by (nonlinear_arith)
        requires
            product * p <= rounded,
            rounded * a <= wide * secs * b,
            x0 == product * p * 1_000_000 * a * a * a * a,
            x1 == wide * secs * b * 1_000_000 * a * a * a,
    ;
    assert(x1 <= x2) by (nonlinear_arith)
        requires
            secs * 1_000_000 * a <= us * p * b,
            x1 == wide * secs * b * 1_000_000 * a * a * a,
            x2 == wide * (us * p * b) * b * a * a,
    ;
    assert(x2 <= x3) by (nonlinear_arith)
        requires
            wide * a <= rate * b,
            x2 == wide * (us * p * b) * b * a * a,
            x3 == (rate * b) * (us * p * b) * b * a,
    ;
    assert(x3 <= x4) by (nonlinear_arith)
        requires
            us * a <= micros * b,
            x3 == (rate * b) * (us * p * b) * b * a,
            x4 == (rate * b) * ((micros * b) * p * b) * b,
    ;
    let aa = a * a * a * a;
    let bb = b * b * b * b;
    let m = product * 1_000_000;
    let r = rate * micros;
    lemma_regroup(product, p, a, rate, micros, b);
    assert(m * aa <= r * bb) by (nonlinear_arith)
        requires
            (m * aa) * p <= (r * bb) * p,
            p > 0,
    ;
    assert(bb * 0x4_0000_0000_0000 <= aa * 0x4_0000_0000_0001) by (nonlinear_arith)
        requires
            a == 0x20_0000_0000_0000,
            b == 0x20_0000_0000_0001,
            aa == a * a * a * a,
            bb == b * b * b * b,
    ;
    assert(m * 0x4_0000_0000_0000 <= r * 0x4_0000_0000_0001) by (nonlinear_arith)
        requires
            m * aa <= r * bb,
            bb * 0x4_0000_0000_0000 <= aa * 0x4_0000_0000_0001,
            aa > 0,
    ;
}

proof fn lemma_chain_lower(
    rate: nat,
    micros: nat,
    wide: nat,
    us: nat,
    p: nat,
    secs: nat,
    rounded: nat,
    product: nat,
)
    requires
        p > 0,
        micros * 0x1f_ffff_ffff_ffff <= us * 0x20_0000_0000_0000,
        us * p * 0x1f_ffff_ffff_ffff <= secs * 1_000_000 * 0x20_0000_0000_0000,
        rate * 0x1f_ffff_ffff_ffff <= wide * 0x20_0000_0000_0000,
        wide * secs * 0x1f_ffff_ffff_ffff <= rounded * 0x20_0000_0000_0000,
        product == rounded / p,
    ensures
        rate * micros * 0x3_ffff_ffff_ffff <= (product + 1) * 1_000_000 * 0x4_0000_0000_0000,
{
    let a: nat = 0x20_0000_0000_0000;
    let b: nat = 0x1f_ffff_ffff_ffff;
    assert(rounded <= (product + 1) * p) by (nonlinear_arith)
        requires
            product == rounded / p,
            p > 0,
    ;
    let x0 = (product + 1) * p * 1_000_000 * a * a * a * a;
    let x1 = wide * secs * b * 1_000_000 * a * a * a;
    let x2 = wide * (us * p * b) * b * a * a;
    let x3 = (rate * b) * (us * p * b) * b * a;
    let x4 = (rate * b) * ((micros * b) * p * b) * b;
    assert(x1 <= x0) by (nonlinear_arith)
        requires
            rounded <= (product + 1) * p,
            wide * secs * b <= rounded * a,
            x0 == (product + 1) * p * 1_000_000 * a * a * a * a,
            x1 == wide * secs * b * 1_000_000 * a * a * a,
    ;
    assert(x2 <= x1) by (nonlinear_arith)
        requires
            us * p * b <= secs * 1_000_000 * a,
            x1 == wide * secs * b * 1_000_000 * a * a * a,
            x2 == wide * (us * p * b) * b * a * a,
    ;
    assert(x3 <= x2) by (nonlinear_arith)
        requires
            rate * b <= wide * a,
            x2 == wide * (us * p * b) * b * a * a,
            x3 == (rate * b) * (us * p * b) * b * a,
    ;
    assert(x4 <= x3) by (nonlinear_arith)
        requires
            micros * b <= us * a,
            x3 == (rate * b) * (us * p * b) * b * a,
            x4 == (rate * b) * ((micros * b) * p * b) * b,
    ;
    let aa = a * a * a * a;
    let bb = b * b * b * b;
    let m = (product + 1) * 1_000_000;
    let r = rate * micros;
    lemma_regroup(product + 1, p, a, rate, micros, b);
    assert(r * bb <= m * aa) by (nonlinear_arith)
        requires
            (r * bb) * p <= (m * aa) * p,
            p > 0,
    ;
    assert(aa * 0x3_ffff_ffff_ffff <= bb * 0x4_0000_0000_0000) by (nonlinear_arith)
        requires
            a == 0x20_0000_0000_0000,
            b == 0x1f_ffff_ffff_ffff,
            aa == a * a * a * a,
            bb == b * b * b * b,
    ;
    assert(r * 0x3_ffff_ffff_ffff <= m * 0x4_0000_0000_0000) by (nonlinear_arith)
        requires
            r * bb <= m * aa,
            aa * 0x3_ffff_ffff_ffff <= bb * 0x4_0000_0000_0000,
            aa > 0,
    ;
}

/// Rounding gives the nearest integer, and of two that are equally near the even one.
pub proof fn law_rounding_is_to_the_nearest(n: nat, d: nat)
    requires
        d > 0,
    ensures
        2 * (half_even(n, d) * d) <= 2 * n + d,
        2 * n <= 2 * (half_even(n, d) * d) + d,
        2 * (half_even(n, d) * d) == 2 * n + d || 2 * n == 2 * (half_even(n, d) * d) + d
            ==> half_even(n, d) % 2 == 0,
{
    let q = n / d;
    let r = n % d;
    vstd::arithmetic::div_mod::lemma_fundamental_div_mod(n as int, d as int);
    assert(q * d == d * q) by (nonlinear_arith);
    assert((q + 1) * d == q * d + d) by (nonlinear_arith);
}

/// What is rounded to double precision has at most 53 significant bits.
pub proof fn law_doubles_have_53_bits(n: nat)
    ensures
        exists|c: nat, k: nat|
            c <= 0x20_0000_0000_0000 && to_double(n) == #[trigger] (c * pow2(k)),
{
    let k = excess_bits(n);
    let d = pow2(k);
    lemma_excess(n);
    law_rounding_is_to_the_nearest(n, d);
    let c = half_even(n, d);
    assert(c <= 0x20_0000_0000_0000) by (nonlinear_arith)
        requires
            2 * (c * d) <= 2 * n + d,
            n < 0x20_0000_0000_0000 * d,
            d > 0,
    ;
    assert(to_double(n) == c * pow2(k));
}

} // verus!
