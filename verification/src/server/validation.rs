//! Checks on text that goes into the arguments of system commands.

use crate::net::v4_text;
use crate::parse::{
    law_digits_are_plain, law_numbers_have_a_bound, law_separators_part_pieces,
    law_v4_addresses_are_read_back, law_v4_addresses_have_four_pieces, parse_u8, parse_v4, parse_v6,
    pieces, split, u8_of, v4_of, v6_of,
};
use crate::server::error::{ServerError, ServerResult};
use crate::text::{chars_of, decimal};
use vstd::prelude::*;

verus! {

/// Longest name of a network interface.
pub const MAX_INTERFACE_NAME_LEN: usize = 15;

/// An IPv4 network: an address, a slash and a prefix length up to 32.
pub open spec fn is_v4_cidr(s: Seq<char>) -> bool {
    let p = pieces(s, '/');
    &&& p.len() == 2
    &&& v4_of(p[0]) is Some
    &&& u8_of(p[1]) matches Some(n) && n <= 32
}

/// An IPv6 network: an address, a slash and a prefix length up to 128.
pub open spec fn is_v6_cidr(s: Seq<char>) -> bool {
    let p = pieces(s, '/');
    &&& p.len() == 2
    &&& v6_of(p[0]) is Some
    &&& u8_of(p[1]) matches Some(n) && n <= 128
}

/// A character of an interface name.
pub open spec fn is_name_char(c: char) -> bool {
    ||| 'a' <= c && c <= 'z'
    ||| 'A' <= c && c <= 'Z'
    ||| '0' <= c && c <= '9'
    ||| c == '-'
    ||| c == '_'
    ||| c == '.'
}

/// The name of a network interface: one to fifteen letters, digits, hyphens, underscores and
/// dots.
pub open spec fn is_interface_name(s: Seq<char>) -> bool {
    &&& 1 <= s.len() <= MAX_INTERFACE_NAME_LEN
    &&& forall|i: int| 0 <= i < s.len() ==> is_name_char(#[trigger] s[i])
}

/// What a check says of `text`.
pub open spec fn checked(r: ServerResult<()>, valid: bool, what: Seq<char>, text: Seq<char>) -> bool {
    match r {
        Ok(_) => valid,
        Err(ServerError::Config(m)) => !valid && m@ == what + text,
        Err(_) => false,
    }
}

fn verdict(valid: bool, what: &str, text: &str) -> (r: ServerResult<()>)
    ensures
        checked(r, valid, what@, text@),
{
    if valid {
        Ok(())
    } else {
        let mut m = String::from_str(what);
        m.append(text);
        Err(ServerError::Config(m))
    }
}

/// Checks an IPv4 network.
pub fn validate_ipv4_cidr(text: &str) -> (r: ServerResult<()>)
    ensures
        checked(r, is_v4_cidr(text@), "invalid IPv4 network: "@, text@),
{
    let chars = chars_of(text);
    let p = split(chars.as_slice(), '/');
    let valid = if p.len() == 2 {
        assert(p@[0]@ == pieces(text@, '/')[0]);
        assert(p@[1]@ == pieces(text@, '/')[1]);
        let prefix_ok = match parse_u8(p[1].as_slice()) {
            Some(n) => n <= 32,
            None => false,
        };
        parse_v4(p[0].as_slice()).is_some() && prefix_ok
    } else {
        false
    };
    verdict(valid, "invalid IPv4 network: ", text)
}

/// Checks an IPv6 network.
pub fn validate_ipv6_cidr(text: &str) -> (r: ServerResult<()>)
    ensures
        checked(r, is_v6_cidr(text@), "invalid IPv6 network: "@, text@),
{
    let chars = chars_of(text);
    let p = split(chars.as_slice(), '/');
    let valid = if p.len() == 2 {
        assert(p@[0]@ == pieces(text@, '/')[0]);
        assert(p@[1]@ == pieces(text@, '/')[1]);
        let prefix_ok = match parse_u8(p[1].as_slice()) {
            Some(n) => n <= 128,
            None => false,
        };
        parse_v6(p[0].as_slice()).is_some() && prefix_ok
    } else {
        false
    };
    verdict(valid, "invalid IPv6 network: ", text)
}

/// Checks an IPv4 address.
pub fn validate_ipv4_address(text: &str) -> (r: ServerResult<()>)
    ensures
        checked(r, v4_of(text@) is Some, "invalid IPv4 address: "@, text@),
{
    let chars = chars_of(text);
    let valid = parse_v4(chars.as_slice()).is_some();
    verdict(valid, "invalid IPv4 address: ", text)
}

/// Checks an IPv6 address.
pub fn validate_ipv6_address(text: &str) -> (r: ServerResult<()>)
    ensures
        checked(r, v6_of(text@) is Some, "invalid IPv6 address: "@, text@),
{
    let chars = chars_of(text);
    let valid = parse_v6(chars.as_slice()).is_some();
    verdict(valid, "invalid IPv6 address: ", text)
}

fn name_char(c: char) -> (b: bool)
    ensures
        b == is_name_char(c),
{
    ('a' <= c && c <= 'z') || ('A' <= c && c <= 'Z') || ('0' <= c && c <= '9') || c == '-' || c
        == '_' || c == '.'
}

/// Checks the name of a network interface.
pub fn validate_interface_name(text: &str) -> (r: ServerResult<()>)
    ensures
        checked(r, is_interface_name(text@), "invalid interface name: "@, text@),
{
    let chars = chars_of(text);
    let mut valid = chars.len() >= 1 && chars.len() <= MAX_INTERFACE_NAME_LEN;
    let mut i: usize = 0;
    while i < chars.len()
        invariant
            i <= chars@.len(),
            valid == (1 <= chars@.len() <= MAX_INTERFACE_NAME_LEN && forall|j: int|
                0 <= j < i ==> is_name_char(#[trigger] chars@[j])),
        decreases chars@.len() - i,
    {
        if !name_char(chars[i]) {
            valid = false;
        }
        i += 1;
    }
    verdict(valid, "invalid interface name: ", text)
}

/// Text that passes as an interface name holds nothing that a shell would act on.
pub proof fn law_interface_names_are_inert(s: Seq<char>, i: int)
    requires
        is_interface_name(s),
        0 <= i < s.len(),
    ensures
        s[i] != ';',
        s[i] != '`',
        s[i] != '$',
        s[i] != '|',
        s[i] != '&',
        s[i] != ' ',
        s[i] != '/',
{
    assert(is_name_char(s[i]));
}

/// An address with a prefix length makes a network exactly when no more bits are asked for than an
/// address has.
pub proof fn law_networks_are_recognised(a: u32, n: u8)
    ensures
        is_v4_cidr(v4_text(a) + seq!['/'] + decimal(n as nat)) <==> n <= 32,
        !is_v4_cidr(v4_text(a)),
{
    let text = v4_text(a) + seq!['/'] + decimal(n as nat);
    law_numbers_have_a_bound(n as nat, 255);
    law_digits_are_plain(n as nat, 10);
    law_v4_addresses_have_four_pieces(a);
    law_v4_addresses_are_read_back(a);
    law_separators_part_pieces(v4_text(a), decimal(n as nat), '/');
    law_separators_part_pieces(decimal(n as nat), Seq::empty(), '/');
    assert(pieces(text, '/') =~= seq![v4_text(a), decimal(n as nat)]);
}

/// A name of an interface has from one to fifteen characters, all of them letters, digits, hyphens,
/// underscores or dots; and every such name is one.
pub proof fn law_plain_names_are_accepted(s: Seq<char>)
    ensures
        is_interface_name(s) <==> 1 <= s.len() <= 15 && forall|i: int|
            0 <= i < s.len() ==> 'a' <= #[trigger] s[i] && s[i] <= 'z' || 'A' <= s[i] && s[i] <= 'Z'
                || '0' <= s[i] && s[i] <= '9' || s[i] == '-' || s[i] == '_' || s[i] == '.',
{
    if is_interface_name(s) {
        assert forall|i: int| 0 <= i < s.len() implies 'a' <= #[trigger] s[i] && s[i] <= 'z' || 'A'
            <= s[i] && s[i] <= 'Z' || '0' <= s[i] && s[i] <= '9' || s[i] == '-' || s[i] == '_'
            || s[i] == '.' by {
            assert(is_name_char(s[i]));
        }
    }
}

/// The same holds of IPv6, whose addresses have 128 bits.
pub proof fn law_ipv6_networks_are_recognised(address: Seq<char>, n: u8)
    requires
        forall|i: int| 0 <= i < address.len() ==> #[trigger] address[i] != '/',
    ensures
        is_v6_cidr(address + seq!['/'] + decimal(n as nat)) <==> v6_of(address) is Some && n <= 128,
        !is_v6_cidr(address),
{
    let text = address + seq!['/'] + decimal(n as nat);
    law_numbers_have_a_bound(n as nat, 255);
    law_digits_are_plain(n as nat, 10);
    law_separators_part_pieces(address, decimal(n as nat), '/');
    law_separators_part_pieces(decimal(n as nat), Seq::empty(), '/');
    assert(pieces(text, '/') =~= seq![address, decimal(n as nat)]);
}

} // verus!
