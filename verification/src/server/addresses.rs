//! Addresses and address pools as the configuration writes them.

use crate::be::{be_bytes, lemma_be_len, to_be};
use crate::net::{law_octets_make_up_the_address, octet, v4_text};
use crate::parse::{
    law_digits_are_plain, law_numbers_have_a_bound, law_separators_part_pieces,
    law_v4_addresses_have_four_pieces, parse_u8, parse_v6, pieces, split, u8_of, v6_of,
};
use crate::text::{chars_of, decimal, push_decimal, text_of, texts};
use vstd::prelude::*;

verus! {

/// Four octets separated by dots, or what is wrong with them: `bad_form` and the text when there
/// are not four pieces, else `bad_octet` and the first piece that is not an octet.
pub open spec fn octets_of(s: Seq<char>, bad_form: Seq<char>, bad_octet: Seq<char>) -> Result<
    Seq<u8>,
    Seq<char>,
> {
    let p = pieces(s, '.');
    if p.len() != 4 {
        Err(bad_form + s)
    } else {
        match (u8_of(p[0]), u8_of(p[1]), u8_of(p[2]), u8_of(p[3])) {
            (None, _, _, _) => Err(bad_octet + p[0]),
            (_, None, _, _) => Err(bad_octet + p[1]),
            (_, _, None, _) => Err(bad_octet + p[2]),
            (_, _, _, None) => Err(bad_octet + p[3]),
            (Some(a), Some(b), Some(c), Some(d)) => Ok(seq![a, b, c, d]),
        }
    }
}

/// An IPv4 pool: a base address, a slash and a prefix length from 1 to 32.
pub open spec fn v4_pool_of(s: Seq<char>) -> Result<(Seq<u8>, u8), Seq<char>> {
    let p = pieces(s, '/');
    if p.len() != 2 {
        Err("invalid IPv4 pool format: "@ + s)
    } else {
        match octets_of(p[0], "invalid IPv4 address: "@, "invalid IPv4 octet: "@) {
            Err(m) => Err(m),
            Ok(base) => match u8_of(p[1]) {
                None => Err("invalid prefix length: "@ + p[1]),
                Some(n) => if 1 <= n <= 32 {
                    Ok((base, n))
                } else {
                    Err("IPv4 prefix length must be in 1..=32, got "@ + decimal(n as nat))
                },
            },
        }
    }
}

/// An IPv6 pool: a base address, a slash and a prefix length.
pub open spec fn v6_pool_of(s: Seq<char>) -> Result<(Seq<u8>, u8), Seq<char>> {
    let p = pieces(s, '/');
    if p.len() != 2 {
        Err("invalid IPv6 pool format: "@ + s)
    } else {
        match v6_octets_of(p[0], "invalid IPv6 address: "@) {
            Err(m) => Err(m),
            Ok(base) => match u8_of(p[1]) {
                None => Err("invalid IPv6 prefix: "@ + p[1]),
                Some(n) => Ok((base, n)),
            },
        }
    }
}

/// The sixteen octets of an IPv6 address, or `bad` and the text when it is none.
pub open spec fn v6_octets_of(s: Seq<char>, bad: Seq<char>) -> Result<Seq<u8>, Seq<char>> {
    match v6_of(s) {
        Some(a) => Ok(be_bytes(a as nat, 16)),
        None => Err(bad + s),
    }
}

/// The octets of IPv4 name servers, or what is wrong with the first that has none.
pub open spec fn dns_of(list: Seq<Seq<char>>) -> Result<Seq<Seq<u8>>, Seq<char>>
    decreases list.len(),
{
    if list.len() == 0 {
        Ok(Seq::empty())
    } else {
        match dns_of(list.drop_last()) {
            Err(m) => Err(m),
            Ok(v) => match octets_of(list.last(), "invalid DNS server: "@, "invalid DNS octet: "@) {
                Err(m) => Err(m),
                Ok(o) => Ok(v.push(o)),
            },
        }
    }
}

/// The octets of IPv6 name servers, or what is wrong with the first that has none.
pub open spec fn v6_dns_of(list: Seq<Seq<char>>) -> Result<Seq<Seq<u8>>, Seq<char>>
    decreases list.len(),
{
    if list.len() == 0 {
        Ok(Seq::empty())
    } else {
        match v6_dns_of(list.drop_last()) {
            Err(m) => Err(m),
            Ok(v) => match v6_octets_of(list.last(), "invalid IPv6 DNS server: "@) {
                Err(m) => Err(m),
                Ok(o) => Ok(v.push(o)),
            },
        }
    }
}

fn with_chars(prefix: &str, chars: &[char]) -> (s: String)
    ensures
        s@ == prefix@ + chars@,
{
    let mut s = String::from_str(prefix);
    let tail = text_of(chars, 0, chars.len());
    proof {
        assert(chars@.subrange(0, chars@.len() as int) =~= chars@);
    }
    s.append(tail.as_str());
    s
}

/// Reads four octets separated by dots.
pub fn parse_octets(chars: &[char], bad_form: &str, bad_octet: &str) -> (r: Result<
    [u8; 4],
    String,
>)
    ensures
        match r {
            Ok(a) => octets_of(chars@, bad_form@, bad_octet@) == Ok::<Seq<u8>, Seq<char>>(a@),
            Err(m) => octets_of(chars@, bad_form@, bad_octet@) == Err::<Seq<u8>, Seq<char>>(m@),
        },
{
    let p = split(chars, '.');
    if p.len() != 4 {
        return Err(with_chars(bad_form, chars));
    }
    let ghost q = pieces(chars@, '.');
    assert(p@[0]@ == q[0] && p@[1]@ == q[1] && p@[2]@ == q[2] && p@[3]@ == q[3]);
    let mut ip: [u8; 4] = [0, 0, 0, 0];
    let mut i: usize = 0;
    while i < 4
        invariant
            i <= 4,
            p@.len() == 4,
            q == pieces(chars@, '.'),
            q.len() == 4,
            p@[0]@ == q[0] && p@[1]@ == q[1] && p@[2]@ == q[2] && p@[3]@ == q[3],
            i > 0 ==> u8_of(q[0]) == Some(ip@[0]),
            i > 1 ==> u8_of(q[1]) == Some(ip@[1]),
            i > 2 ==> u8_of(q[2]) == Some(ip@[2]),
            i > 3 ==> u8_of(q[3]) == Some(ip@[3]),
        decreases 4 - i,
    {
        match parse_u8(p[i].as_slice()) {
            Some(n) => {
                ip[i] = n;
            },
            None => {
                return Err(with_chars(bad_octet, p[i].as_slice()));
            },
        }
        i += 1;
    }
    proof {
        assert(ip@ =~= seq![ip@[0], ip@[1], ip@[2], ip@[3]]);
    }
    Ok(ip)
}

/// Reads an IPv6 address.
pub fn parse_v6_octets(chars: &[char], bad: &str) -> (r: Result<[u8; 16], String>)
    ensures
        match r {
            Ok(a) => v6_octets_of(chars@, bad@) == Ok::<Seq<u8>, Seq<char>>(a@),
            Err(m) => v6_octets_of(chars@, bad@) == Err::<Seq<u8>, Seq<char>>(m@),
        },
{
    match parse_v6(chars) {
        None => Err(with_chars(bad, chars)),
        Some(a) => {
            proof {
                lemma_be_len(a as nat, 16);
            }
            let v = to_be(a, 16);
            let ip: [u8; 16] = [
                v[0], v[1], v[2], v[3], v[4], v[5], v[6], v[7], v[8], v[9], v[10], v[11], v[12], v[13],
                v[14], v[15],
            ];
            proof {
                assert(ip@ =~= v@);
            }
            Ok(ip)
        },
    }
}

/// Reads an IPv4 pool.
pub fn parse_v4_pool(text: &str) -> (r: Result<([u8; 4], u8), String>)
    ensures
        match r {
            Ok(p) => v4_pool_of(text@) == Ok::<(Seq<u8>, u8), Seq<char>>((p.0@, p.1)),
            Err(m) => v4_pool_of(text@) == Err::<(Seq<u8>, u8), Seq<char>>(m@),
        },
{
    let chars = chars_of(text);
    let p = split(chars.as_slice(), '/');
    if p.len() != 2 {
        return Err(with_chars("invalid IPv4 pool format: ", chars.as_slice()));
    }
    let ghost q = pieces(text@, '/');
    assert(p@[0]@ == q[0] && p@[1]@ == q[1]);
    let base = match parse_octets(p[0].as_slice(), "invalid IPv4 address: ", "invalid IPv4 octet: ") {
        Ok(b) => b,
        Err(m) => {
            return Err(m);
        },
    };
    match parse_u8(p[1].as_slice()) {
        None => Err(with_chars("invalid prefix length: ", p[1].as_slice())),
        Some(n) => if n == 0 || n > 32 {
            let mut m = String::from_str("IPv4 prefix length must be in 1..=32, got ");
            push_decimal(&mut m, n as u64);
            Err(m)
        } else {
            Ok((base, n))
        },
    }
}

/// Reads an IPv6 pool.
pub fn parse_v6_pool(text: &str) -> (r: Result<([u8; 16], u8), String>)
    ensures
        match r {
            Ok(p) => v6_pool_of(text@) == Ok::<(Seq<u8>, u8), Seq<char>>((p.0@, p.1)),
            Err(m) => v6_pool_of(text@) == Err::<(Seq<u8>, u8), Seq<char>>(m@),
        },
{
    let chars = chars_of(text);
    let p = split(chars.as_slice(), '/');
    if p.len() != 2 {
        return Err(with_chars("invalid IPv6 pool format: ", chars.as_slice()));
    }
    let ghost q = pieces(text@, '/');
    assert(p@[0]@ == q[0] && p@[1]@ == q[1]);
    let base = match parse_v6_octets(p[0].as_slice(), "invalid IPv6 address: ") {
        Ok(b) => b,
        Err(m) => {
            return Err(m);
        },
    };
    match parse_u8(p[1].as_slice()) {
        None => Err(with_chars("invalid IPv6 prefix: ", p[1].as_slice())),
        Some(n) => Ok((base, n)),
    }
}

proof fn lemma_dns_prefix(list: Seq<Seq<char>>, n: int)
    requires
        0 <= n <= list.len(),
        dns_of(list.take(n)) is Err,
    ensures
        dns_of(list) == dns_of(list.take(n)),
    decreases list.len(),
{
    if n < list.len() {
        assert(list.drop_last().take(n) =~= list.take(n));
        lemma_dns_prefix(list.drop_last(), n);
    } else {
        assert(list.take(n) =~= list);
    }
}

proof fn lemma_v6_dns_prefix(list: Seq<Seq<char>>, n: int)
    requires
        0 <= n <= list.len(),
        v6_dns_of(list.take(n)) is Err,
    ensures
        v6_dns_of(list) == v6_dns_of(list.take(n)),
    decreases list.len(),
{
    if n < list.len() {
        assert(list.drop_last().take(n) =~= list.take(n));
        lemma_v6_dns_prefix(list.drop_last(), n);
    } else {
        assert(list.take(n) =~= list);
    }
}

/// The octets in a list of IPv4 addresses.
pub open spec fn v4_views(v: Seq<[u8; 4]>) -> Seq<Seq<u8>> {
    v.map_values(|a: [u8; 4]| a@)
}

/// The octets in a list of IPv6 addresses.
pub open spec fn v6_views(v: Seq<[u8; 16]>) -> Seq<Seq<u8>> {
    v.map_values(|a: [u8; 16]| a@)
}

/// Reads IPv4 name servers.
pub fn parse_v4_dns(list: &Vec<String>) -> (r: Result<Vec<[u8; 4]>, String>)
    ensures
        match r {
            Ok(v) => dns_of(texts(list@)) == Ok::<Seq<Seq<u8>>, Seq<char>>(v4_views(v@)),
            Err(m) => dns_of(texts(list@)) == Err::<Seq<Seq<u8>>, Seq<char>>(m@),
        },
{
    let ghost all = texts(list@);
    let mut v: Vec<[u8; 4]> = Vec::new();
    let mut i: usize = 0;
    proof {
        assert(all.take(0) =~= Seq::empty());
        assert(v4_views(v@) =~= Seq::empty());
    }
    while i < list.len()
        invariant
            i <= list@.len(),
            all == texts(list@),
            dns_of(all.take(i as int)) == Ok::<Seq<Seq<u8>>, Seq<char>>(v4_views(v@)),
        decreases list@.len() - i,
    {
        let chars = chars_of(list[i].as_str());
        proof {
            assert(all.take(i + 1).drop_last() =~= all.take(i as int));
            assert(all.take(i + 1).last() == chars@);
        }
        match parse_octets(chars.as_slice(), "invalid DNS server: ", "invalid DNS octet: ") {
            Ok(a) => {
                let ghost before = v@;
                v.push(a);
                proof {
                    assert(v4_views(v@) =~= v4_views(before).push(a@));
                }
            },
            Err(m) => {
                proof {
                    lemma_dns_prefix(all, i + 1);
                }
                return Err(m);
            },
        }
        i += 1;
    }
    proof {
        assert(all.take(all.len() as int) =~= all);
    }
    Ok(v)
}

/// Reads IPv6 name servers.
pub fn parse_v6_dns(list: &Vec<String>) -> (r: Result<Vec<[u8; 16]>, String>)
    ensures
        match r {
            Ok(v) => v6_dns_of(texts(list@)) == Ok::<Seq<Seq<u8>>, Seq<char>>(v6_views(v@)),
            Err(m) => v6_dns_of(texts(list@)) == Err::<Seq<Seq<u8>>, Seq<char>>(m@),
        },
{
    let ghost all = texts(list@);
    let mut v: Vec<[u8; 16]> = Vec::new();
    let mut i: usize = 0;
    proof {
        assert(all.take(0) =~= Seq::empty());
        assert(v6_views(v@) =~= Seq::empty());
    }
    while i < list.len()
        invariant
            i <= list@.len(),
            all == texts(list@),
            v6_dns_of(all.take(i as int)) == Ok::<Seq<Seq<u8>>, Seq<char>>(v6_views(v@)),
        decreases list@.len() - i,
    {
        let chars = chars_of(list[i].as_str());
        proof {
            assert(all.take(i + 1).drop_last() =~= all.take(i as int));
            assert(all.take(i + 1).last() == chars@);
        }
        match parse_v6_octets(chars.as_slice(), "invalid IPv6 DNS server: ") {
            Ok(a) => {
                let ghost before = v@;
                v.push(a);
                proof {
                    assert(v6_views(v@) =~= v6_views(before).push(a@));
                }
            },
            Err(m) => {
                proof {
                    lemma_v6_dns_prefix(all, i + 1);
                }
                return Err(m);
            },
        }
        i += 1;
    }
    proof {
        assert(all.take(all.len() as int) =~= all);
    }
    Ok(v)
}

/// A pool that is written as an address, a slash and a prefix length is read as such; lengths that
/// no IPv4 prefix has are refused.
pub proof fn law_pools_are_read(a: u32, n: u8)
    ensures
        ({
            let text = v4_text(a) + seq!['/'] + decimal(n as nat);
            let octets = seq![
                octet(a, 0) as u8,
                octet(a, 1) as u8,
                octet(a, 2) as u8,
                octet(a, 3) as u8,
            ];
            &&& 1 <= n <= 32 ==> v4_pool_of(text) == Ok::<(Seq<u8>, u8), Seq<char>>((octets, n))
            &&& n == 0 || n > 32 ==> v4_pool_of(text) is Err
        }),
{
    let text = v4_text(a) + seq!['/'] + decimal(n as nat);
    law_numbers_have_a_bound(n as nat, 255);
    law_digits_are_plain(n as nat, 10);
    law_v4_addresses_have_four_pieces(a);
    law_separators_part_pieces(v4_text(a), decimal(n as nat), '/');
    law_separators_part_pieces(decimal(n as nat), Seq::empty(), '/');
    assert(pieces(text, '/') =~= seq![v4_text(a), decimal(n as nat)]);
    law_octets_make_up_the_address(a);
    law_numbers_have_a_bound(octet(a, 0), 255);
    law_numbers_have_a_bound(octet(a, 1), 255);
    law_numbers_have_a_bound(octet(a, 2), 255);
    law_numbers_have_a_bound(octet(a, 3), 255);
}

/// Every name server of a list is read, in order, and one that is no address spoils the list.
pub proof fn law_name_servers_are_read_in_order(list: Seq<Seq<char>>, last: Seq<char>)
    ensures
        dns_of(list.push(last)) is Ok <==> dns_of(list) is Ok && octets_of(
            last,
            "invalid DNS server: "@,
            "invalid DNS octet: "@,
        ) is Ok,
        dns_of(list.push(last)) matches Ok(v) ==> v.len() == list.len() + 1 && v.drop_last()
            == dns_of(list)->Ok_0 && v.last() == octets_of(
            last,
            "invalid DNS server: "@,
            "invalid DNS octet: "@,
        )->Ok_0,
    decreases list.len(),
{
    assert(list.push(last).drop_last() =~= list);
    if list.len() > 0 {
        law_name_servers_are_read_in_order(list.drop_last(), list.last());
        assert(list.drop_last().push(list.last()) =~= list);
    }
    if dns_of(list.push(last)) is Ok {
        let v = dns_of(list.push(last))->Ok_0;
        assert(v.drop_last() =~= dns_of(list)->Ok_0);
    }
}

/// An IPv6 pool that is written as an address, a slash and a prefix length is read as such.
pub proof fn law_ipv6_pools_are_read(address: Seq<char>, n: u8)
    requires
        forall|i: int| 0 <= i < address.len() ==> #[trigger] address[i] != '/',
    ensures
        ({
            let text = address + seq!['/'] + decimal(n as nat);
            &&& v6_of(address) matches Some(a) ==> v6_pool_of(text) == Ok::<
                (Seq<u8>, u8),
                Seq<char>,
            >((be_bytes(a as nat, 16), n))
            &&& v6_of(address) is None ==> v6_pool_of(text) is Err
        }),
{
    let text = address + seq!['/'] + decimal(n as nat);
    law_numbers_have_a_bound(n as nat, 255);
    law_digits_are_plain(n as nat, 10);
    law_separators_part_pieces(address, decimal(n as nat), '/');
    law_separators_part_pieces(decimal(n as nat), Seq::empty(), '/');
    assert(pieces(text, '/') =~= seq![address, decimal(n as nat)]);
}

/// Every IPv6 name server of a list is read, in order, and one that is no address spoils the list.
pub proof fn law_ipv6_name_servers_are_read_in_order(list: Seq<Seq<char>>, last: Seq<char>)
    ensures
        v6_dns_of(list.push(last)) is Ok <==> v6_dns_of(list) is Ok && v6_of(last) is Some,
        v6_dns_of(list.push(last)) matches Ok(v) ==> v == v6_dns_of(list)->Ok_0.push(
            be_bytes(v6_of(last)->0 as nat, 16),
        ),
{
    assert(list.push(last).drop_last() =~= list);
}

} // verus!
