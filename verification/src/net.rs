//! Internet addresses as plain numbers.

use crate::assoc::Key;
use crate::text::{decimal, hexadecimal, push_decimal, push_hexadecimal};
use vstd::prelude::*;

verus! {

/// An IP address; `V4` and `V6` hold it as a number in network order.
#[derive(Clone, Copy, Debug, PartialEq, Eq, Hash, Structural)]
pub enum IpAddr {
    V4(u32),
    V6(u128),
}

/// An IP address with a port. The flow label and the scope are those of an IPv6 address, and
/// zero otherwise.
#[derive(Clone, Copy, Debug, PartialEq, Eq, Hash, Structural)]
pub struct SocketAddr {
    pub ip: IpAddr,
    pub port: u16,
    pub flowinfo: u32,
    pub scope_id: u32,
}

impl IpAddr {
    /// The address of the loopback network: `127.0.0.0/8` or `::1`.
    pub open spec fn loopback(self) -> bool {
        match self {
            IpAddr::V4(a) => a / 0x100_0000 == 127,
            IpAddr::V6(a) => a == 1,
        }
    }

    /// The address that names no host: all bits zero.
    pub open spec fn unspecified(self) -> bool {
        match self {
            IpAddr::V4(a) => a == 0,
            IpAddr::V6(a) => a == 0,
        }
    }

    /// Whether this is a loopback address.
    pub fn is_loopback(&self) -> (b: bool)
        ensures
            b == self.loopback(),
    {
        match *self {
            IpAddr::V4(a) => a / 0x100_0000 == 127,
            IpAddr::V6(a) => a == 1,
        }
    }

    /// Whether this is the unspecified address.
    pub fn is_unspecified(&self) -> (b: bool)
        ensures
            b == self.unspecified(),
    {
        match *self {
            IpAddr::V4(a) => a == 0,
            IpAddr::V6(a) => a == 0,
        }
    }

    /// The address written as four octets.
    pub fn v4(a: u8, b: u8, c: u8, d: u8) -> (ip: IpAddr)
        ensures
            ip == IpAddr::V4((a * 0x100_0000 + b * 0x1_0000 + c * 0x100 + d) as u32),
    {
        IpAddr::V4(a as u32 * 0x100_0000 + b as u32 * 0x1_0000 + c as u32 * 0x100 + d as u32)
    }
}

impl SocketAddr {
    /// An address with its port.
    pub fn new(ip: IpAddr, port: u16) -> (a: SocketAddr)
        ensures
            a == (SocketAddr { ip, port, flowinfo: 0, scope_id: 0 }),
    {
        SocketAddr { ip, port, flowinfo: 0, scope_id: 0 }
    }
}

impl View for IpAddr {
    type V = IpAddr;

    open spec fn view(&self) -> IpAddr {
        *self
    }
}

impl Key for IpAddr {
    fn same(&self, other: &Self) -> (b: bool) {
        *self == *other
    }
}

/// The octet `i` of an IPv4 address, the first being the highest.
pub open spec fn octet(a: u32, i: int) -> nat {
    if i == 0 {
        a as nat / 0x100_0000
    } else if i == 1 {
        a as nat / 0x1_0000 % 256
    } else if i == 2 {
        a as nat / 0x100 % 256
    } else {
        a as nat % 256
    }
}

/// An IPv4 address in dotted decimal.
pub open spec fn v4_text(a: u32) -> Seq<char> {
    decimal(octet(a, 0)) + "."@ + decimal(octet(a, 1)) + "."@ + decimal(octet(a, 2)) + "."@
        + decimal(octet(a, 3))
}

/// The eight segments of an IPv6 address, the first being the highest.
pub open spec fn segments(a: u128) -> Seq<u16> {
    seq![
        (a / 0x1_0000_0000_0000_0000_0000_0000_0000) as u16,
        (a / 0x1_0000_0000_0000_0000_0000_0000 % 0x1_0000) as u16,
        (a / 0x1_0000_0000_0000_0000_0000 % 0x1_0000) as u16,
        (a / 0x1_0000_0000_0000_0000 % 0x1_0000) as u16,
        (a / 0x1_0000_0000_0000 % 0x1_0000) as u16,
        (a / 0x1_0000_0000 % 0x1_0000) as u16,
        (a / 0x1_0000 % 0x1_0000) as u16,
        (a % 0x1_0000) as u16,
    ]
}

/// Number of zeros in a row from position `i`.
pub open spec fn zeros_from(segs: Seq<u16>, i: int) -> nat
    decreases segs.len() - i,
{
    if 0 <= i < segs.len() && segs[i] == 0 {
        1 + zeros_from(segs, i + 1)
    } else {
        0
    }
}

/// The first position before `n` from which the most zeros follow.
pub open spec fn longest_zeros(segs: Seq<u16>, n: nat) -> int
    decreases n,
{
    if n <= 1 {
        0
    } else {
        let best = longest_zeros(segs, (n - 1) as nat);
        if zeros_from(segs, n - 1) > zeros_from(segs, best) {
            n - 1
        } else {
            best
        }
    }
}

/// The segments from `from` up to `to` in hexadecimal, separated by colons.
pub open spec fn colon_text(segs: Seq<u16>, from: int, to: int) -> Seq<char>
    decreases to - from,
{
    if to <= from {
        Seq::empty()
    } else if to == from + 1 {
        hexadecimal(segs[from] as nat)
    } else {
        colon_text(segs, from, to - 1) + ":"@ + hexadecimal(segs[to - 1] as nat)
    }
}

/// An IPv6 address in its canonical form: the longest row of at least two zero segments, the
/// first one among equals, is left out; an address that holds an IPv4 address shows that one in
/// dotted decimal.
pub open spec fn v6_text(a: u128) -> Seq<char> {
    let segs = segments(a);
    let at = longest_zeros(segs, 8);
    let n = zeros_from(segs, at);
    if a / 0x1_0000_0000 == 0xffff {
        "::ffff:"@ + v4_text((a % 0x1_0000_0000) as u32)
    } else if n > 1 {
        colon_text(segs, 0, at) + "::"@ + colon_text(segs, at + n, 8)
    } else {
        colon_text(segs, 0, 8)
    }
}

/// An IP address as text.
pub open spec fn ip_text(ip: IpAddr) -> Seq<char> {
    match ip {
        IpAddr::V4(a) => v4_text(a),
        IpAddr::V6(a) => v6_text(a),
    }
}

/// An address with its port as text. A scope other than zero follows the IPv6 address.
pub open spec fn socket_text(a: SocketAddr) -> Seq<char> {
    match a.ip {
        IpAddr::V4(v) => v4_text(v) + ":"@ + decimal(a.port as nat),
        IpAddr::V6(v) => if a.scope_id == 0 {
            "["@ + v6_text(v) + "]:"@ + decimal(a.port as nat)
        } else {
            "["@ + v6_text(v) + "%"@ + decimal(a.scope_id as nat) + "]:"@ + decimal(
                a.port as nat,
            )
        },
    }
}

fn push_v4(out: &mut String, a: u32)
    ensures
        final(out)@ == old(out)@ + v4_text(a),
{
    push_decimal(out, (a / 0x100_0000) as u64);
    out.append(".");
    push_decimal(out, (a / 0x1_0000 % 256) as u64);
    out.append(".");
    push_decimal(out, (a / 0x100 % 256) as u64);
    out.append(".");
    push_decimal(out, (a % 256) as u64);
    proof {
        assert(out@ =~= old(out)@ + v4_text(a));
    }
}

fn push_colons(out: &mut String, segs: &Vec<u16>, from: usize, to: usize)
    requires
        from <= to <= segs@.len(),
    ensures
        final(out)@ == old(out)@ + colon_text(segs@, from as int, to as int),
    decreases to - from,
{
    if to > from {
        if to == from + 1 {
            push_hexadecimal(out, segs[from] as u64);
        } else {
            push_colons(out, segs, from, to - 1);
            out.append(":");
            push_hexadecimal(out, segs[to - 1] as u64);
        }
    }
    proof {
        assert(out@ =~= old(out)@ + colon_text(segs@, from as int, to as int));
    }
}

fn count_zeros(segs: &Vec<u16>, i: usize) -> (n: usize)
    requires
        i <= segs@.len(),
    ensures
        n == zeros_from(segs@, i as int),
        i + n <= segs@.len(),
    decreases segs@.len() - i,
{
    if i < segs.len() && segs[i] == 0 {
        1 + count_zeros(segs, i + 1)
    } else {
        0
    }
}

fn push_v6(out: &mut String, a: u128)
    ensures
        final(out)@ == old(out)@ + v6_text(a),
{
    if a / 0x1_0000_0000 == 0xffff {
        out.append("::ffff:");
        push_v4(out, (a % 0x1_0000_0000) as u32);
        proof {
            assert(out@ =~= old(out)@ + v6_text(a));
        }
        return ;
    }
    let segs: Vec<u16> = vec![
        (a / 0x1_0000_0000_0000_0000_0000_0000_0000) as u16,
        (a / 0x1_0000_0000_0000_0000_0000_0000 % 0x1_0000) as u16,
        (a / 0x1_0000_0000_0000_0000_0000 % 0x1_0000) as u16,
        (a / 0x1_0000_0000_0000_0000 % 0x1_0000) as u16,
        (a / 0x1_0000_0000_0000 % 0x1_0000) as u16,
        (a / 0x1_0000_0000 % 0x1_0000) as u16,
        (a / 0x1_0000 % 0x1_0000) as u16,
        (a % 0x1_0000) as u16,
    ];
    proof {
        assert(segs@ =~= segments(a));
    }
    let mut at: usize = 0;
    let mut n: usize = count_zeros(&segs, 0);
    let mut i: usize = 1;
    while i < 8
        invariant
            1 <= i <= 8,
            segs@.len() == 8,
            at < i,
            at == longest_zeros(segs@, i as nat),
            n == zeros_from(segs@, at as int),
            at + n <= 8,
        decreases 8 - i,
    {
        let m: usize = count_zeros(&segs, i);
        if m > n {
            at = i;
            n = m;
        }
        i += 1;
    }
    if n > 1 {
        push_colons(out, &segs, 0, at);
        out.append("::");
        push_colons(out, &segs, at + n, 8);
    } else {
        push_colons(out, &segs, 0, 8);
    }
    proof {
        assert(out@ =~= old(out)@ + v6_text(a));
    }
}

impl IpAddr {
    /// The address as text.
    pub fn to_text(&self) -> (s: String)
        ensures
            s@ == ip_text(*self),
    {
        let mut s = String::new();
        match *self {
            IpAddr::V4(a) => push_v4(&mut s, a),
            IpAddr::V6(a) => push_v6(&mut s, a),
        }
        proof {
            assert(s@ =~= ip_text(*self));
        }
        s
    }
}

impl SocketAddr {
    /// The address and port as text.
    pub fn to_text(&self) -> (s: String)
        ensures
            s@ == socket_text(*self),
    {
        let mut s = String::new();
        match self.ip {
            IpAddr::V4(a) => {
                push_v4(&mut s, a);
                s.append(":");
            },
            IpAddr::V6(a) => {
                s.append("[");
                push_v6(&mut s, a);
                if self.scope_id != 0 {
                    s.append("%");
                    push_decimal(&mut s, self.scope_id as u64);
                }
                s.append("]:");
            },
        }
        push_decimal(&mut s, self.port as u64);
        proof {
            assert(s@ =~= socket_text(*self));
        }
        s
    }

    /// Whether the address is an IPv6 address.
    pub fn is_ipv6(&self) -> (b: bool)
        ensures
            b == (self.ip is V6),
    {
        match self.ip {
            IpAddr::V4(_) => false,
            IpAddr::V6(_) => true,
        }
    }
}

/// The loopback addresses are those from 127.0.0.0 to 127.255.255.255, and `::1`; the address of
/// no host is the one that is all zero. No address is both.
pub proof fn law_special_addresses(a: u32, b: u128, ip: IpAddr)
    ensures
        IpAddr::V4(a).loopback() <==> 0x7f00_0000 <= a <= 0x7fff_ffff,
        IpAddr::V6(b).loopback() <==> b == 1,
        IpAddr::V4(a).unspecified() <==> a == 0,
        IpAddr::V6(b).unspecified() <==> b == 0,
        !(ip.loopback() && ip.unspecified()),
{
}

/// The octets of an address are its digits in base 256.
pub proof fn law_octets_make_up_the_address(a: u32)
    ensures
        octet(a, 0) * 0x100_0000 + octet(a, 1) * 0x1_0000 + octet(a, 2) * 0x100 + octet(a, 3) == a,
        octet(a, 0) <= 255,
        octet(a, 1) <= 255,
        octet(a, 2) <= 255,
        octet(a, 3) <= 255,
{
}

} // verus!
