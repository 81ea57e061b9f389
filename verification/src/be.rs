//! Numbers in network byte order.

use vstd::prelude::*;

verus! {

/// `n` as `len` bytes, the highest first.
pub open spec fn be_bytes(n: nat, len: nat) -> Seq<u8>
    decreases len,
{
    if len == 0 {
        Seq::empty()
    } else {
        be_bytes(n / 256, (len - 1) as nat).push((n % 256) as u8)
    }
}

/// The number that bytes stand for, the highest first.
pub open spec fn be_value(s: Seq<u8>) -> nat
    decreases s.len(),
{
    if s.len() == 0 {
        0
    } else {
        be_value(s.drop_last()) * 256 + s.last() as nat
    }
}

/// Whether `n` fits into `len` bytes.
pub open spec fn fits(n: nat, len: nat) -> bool
    decreases len,
{
    if len == 0 {
        n == 0
    } else {
        fits(n / 256, (len - 1) as nat)
    }
}

/// There are as many bytes as were asked for.
pub proof fn lemma_be_len(n: nat, len: nat)
    ensures
        be_bytes(n, len).len() == len,
    decreases len,
{
    if len > 0 {
        lemma_be_len(n / 256, (len - 1) as nat);
    }
}

/// Bytes of a number give the number back.
pub proof fn lemma_be_round_trip(n: nat, len: nat)
    requires
        fits(n, len),
    ensures
        be_value(be_bytes(n, len)) == n,
        be_bytes(n, len).len() == len,
    decreases len,
{
    if len > 0 {
        lemma_be_round_trip(n / 256, (len - 1) as nat);
        let s = be_bytes(n / 256, (len - 1) as nat);
        assert(be_bytes(n, len).drop_last() =~= s);
    }
}

/// The bytes of `n`, the highest first.
pub fn to_be(n: u128, len: usize) -> (v: Vec<u8>)
    ensures
        v@ == be_bytes(n as nat, len as nat),
    decreases len,
{
    if len == 0 {
        return Vec::new();
    }
    let mut v = to_be(n / 256, len - 1);
    v.push((n % 256) as u8);
    v
}

/// The number that at most sixteen bytes stand for.
pub fn from_be(v: &Vec<u8>) -> (n: u128)
    requires
        v@.len() <= 16,
    ensures
        n == be_value(v@),
{
    let mut n: u128 = 0;
    let mut i: usize = 0;
    let ghost mut p: nat = 1;
    proof {
        vstd::arithmetic::power::lemma_pow0(256);
    }
    while i < v.len()
        invariant
            i <= v@.len() <= 16,
            n == be_value(v@.take(i as int)),
            n < p,
            p == vstd::arithmetic::power::pow(256, i as nat),
        decreases v@.len() - i,
    {
        proof {
            let t = v@.take(i + 1);
            assert(t.drop_last() =~= v@.take(i as int));
            vstd::arithmetic::power::lemma_pow_increases(256, i as nat, 15);
            assert(vstd::arithmetic::power::pow(256, 15) == 0x1_0000_0000_0000_0000_0000_0000_0000_00)
                by {
                reveal_with_fuel(vstd::arithmetic::power::pow, 16);
            }
            reveal_with_fuel(vstd::arithmetic::power::pow, 2);
            p = p * 256;
        }
        n = n * 256 + v[i] as u128;
        i += 1;
    }
    proof {
        assert(v@.take(v@.len() as int) =~= v@);
    }
    n
}

/// Bytes of one length that stand for the same number are the same.
pub proof fn lemma_be_value_injective(a: Seq<u8>, b: Seq<u8>)
    requires
        a.len() == b.len(),
        be_value(a) == be_value(b),
    ensures
        a == b,
    decreases a.len(),
{
    if a.len() > 0 {
        lemma_be_value_injective(a.drop_last(), b.drop_last());
        assert(a =~= a.drop_last().push(a.last()));
        assert(b =~= b.drop_last().push(b.last()));
    } else {
        assert(a =~= b);
    }
}

/// The number of sixteen bytes fits into 128 bits.
pub proof fn lemma_be_value_bound(s: Seq<u8>)
    requires
        s.len() == 16,
    ensures
        be_value(s) <= u128::MAX,
{
    reveal_with_fuel(be_value, 17);
}

/// The highest byte comes first: one more byte behind shifts the others up.
pub proof fn law_the_highest_byte_comes_first(s: Seq<u8>, b: u8, n: nat, len: nat)
    ensures
        be_value(s.push(b)) == be_value(s) * 256 + b,
        be_value(seq![b]) == b,
        be_bytes(n, len + 1).last() == n % 256,
        be_bytes(n, len + 1).drop_last() == be_bytes(n / 256, len),
{
    assert(s.push(b).drop_last() =~= s);
    assert(seq![b].drop_last() =~= Seq::<u8>::empty());
    reveal_with_fuel(be_value, 2);
    assert(be_bytes(n, len + 1).drop_last() =~= be_bytes(n / 256, len));
}

} // verus!
